//! A store of decoded assets, looked up by name.

use vstd::prelude::*;
use crate::image_data::Image;
use crate::image_data::ImageError;
use crate::image_data::ImageModel;
use crate::image_data::decoded_rgba;

verus! {

/// The image map described by a sequence of name/image pairs; later pairs
/// win, though a well-formed store never repeats a name.
pub closed spec fn map_of_images(s: Seq<(String, Image)>) -> Map<Seq<char>, ImageModel>
    decreases s.len(),
{
    if s.len() == 0 {
        Map::empty()
    } else {
        map_of_images(s.drop_last()).insert(s.last().0@, s.last().1@)
    }
}

/// No two pairs carry the same name.
pub closed spec fn names_distinct(s: Seq<(String, Image)>) -> bool {
    forall|i: int, j: int| 0 <= i < j < s.len() ==> s[i].0@ != s[j].0@
}

proof fn lemma_images_contains(s: Seq<(String, Image)>, name: Seq<char>)
    ensures
        map_of_images(s).contains_key(name) <==> exists|i: int| 0 <= i < s.len() && s[i].0@
            == name,
    decreases s.len(),
{
    if s.len() > 0 {
        lemma_images_contains(s.drop_last(), name);
        if s.last().0@ != name {
            if map_of_images(s).contains_key(name) {
                let i = choose|i: int| 0 <= i < s.drop_last().len() && s.drop_last()[i].0@ == name;
                assert(s[i].0@ == name);
            }
            if exists|i: int| 0 <= i < s.len() && s[i].0@ == name {
                let i = choose|i: int| 0 <= i < s.len() && s[i].0@ == name;
                assert(s.drop_last()[i].0@ == name);
            }
        }
    }
}

proof fn lemma_images_index(s: Seq<(String, Image)>, i: int)
    requires
        names_distinct(s),
        0 <= i < s.len(),
    ensures
        map_of_images(s).contains_key(s[i].0@),
        map_of_images(s)[s[i].0@] == s[i].1@,
    decreases s.len(),
{
    if i < s.len() - 1 {
        assert(s.drop_last()[i] == s[i]);
        lemma_images_index(s.drop_last(), i);
        assert(s[i].0@ != s.last().0@);
    }
}

proof fn lemma_images_update(s: Seq<(String, Image)>, i: int, pair: (String, Image))
    requires
        names_distinct(s),
        0 <= i < s.len(),
        pair.0@ == s[i].0@,
    ensures
        map_of_images(s.update(i, pair)) =~= map_of_images(s).insert(pair.0@, pair.1@),
    decreases s.len(),
{
    let s2 = s.update(i, pair);
    if i == s.len() - 1 {
        assert(s2.drop_last() =~= s.drop_last());
        assert(s2.last() == pair);
    } else {
        assert(s2.drop_last() =~= s.drop_last().update(i, pair));
        assert(s2.last() == s.last());
        lemma_images_update(s.drop_last(), i, pair);
        assert(s.drop_last()[i] == s[i]);
        assert(s.last().0@ != pair.0@);
    }
}

/// A store of decoded images, looked up by name.
pub struct AssetStore {
    images: Vec<(String, Image)>,
}

impl View for AssetStore {
    type V = Map<Seq<char>, ImageModel>;

    closed spec fn view(&self) -> Map<Seq<char>, ImageModel> {
        map_of_images(self.images@)
    }
}

impl AssetStore {
    /// Internal well-formedness: every name appears at most once.
    pub closed spec fn wf(&self) -> bool {
        names_distinct(self.images@)
    }

    /// Creates an empty asset store.
    pub fn new() -> (store: Self)
        ensures
            store.wf(),
            store@ =~= Map::<Seq<char>, ImageModel>::empty(),
    {
        AssetStore { images: Vec::new() }
    }

    /// Index of the pair holding `name`, if any.
    fn find(&self, name: &String) -> (r: Option<usize>)
        requires
            self.wf(),
        ensures
            match r {
                Some(i) => {
                    &&& i < self.images@.len()
                    &&& self.images@[i as int].0@ == name@
                    &&& self@.contains_key(name@)
                    &&& self@[name@] == self.images@[i as int].1@
                },
                None => !self@.contains_key(name@),
            },
    {
        let n = self.images.len();
        let mut i: usize = 0;
        while i < n
            invariant
                self.wf(),
                n == self.images@.len(),
                i <= n,
                forall|j: int| 0 <= j < i ==> self.images@[j].0@ != name@,
            decreases n - i,
        {
            if self.images[i].0.eq(name) {
                proof {
                    lemma_images_index(self.images@, i as int);
                }
                return Some(i);
            }
            i += 1;
        }
        proof {
            lemma_images_contains(self.images@, name@);
        }
        None
    }

    /// Decodes `data` and stores the image under `name`, replacing any
    /// image stored under that name before; returns the decoded image.
    /// Fails exactly when the bytes are not a decodable image, leaving the
    /// store unchanged.
    pub fn add_image(&mut self, name: String, data: &[u8]) -> (r: Result<Image, ImageError>)
        requires
            old(self).wf(),
        ensures
            final(self).wf(),
            match r {
                Ok(img) => {
                    &&& decoded_rgba(data@) matches Some(t) && img@.width == t.0 && img@.height
                        == t.1 && img@.pixels == t.2
                    &&& img@.wf()
                    &&& final(self)@ =~= old(self)@.insert(name@, img@)
                },
                Err(e) => {
                    &&& decoded_rgba(data@) is None
                    &&& e == ImageError::Decode
                    &&& final(self)@ =~= old(self)@
                },
            },
    {
        let img = match Image::from_mem(data) {
            Ok(img) => img,
            Err(e) => {
                return Err(e);
            },
        };
        let stored = img.clone();
        match self.find(&name) {
            Some(i) => {
                let ghost prev = self.images@;
                let pair = (name, stored);
                let ghost pair_g = pair;
                let _ = self.images.remove(i);
                self.images.insert(i, pair);
                proof {
                    assert(self.images@ =~= prev.update(i as int, pair_g));
                    lemma_images_update(prev, i as int, pair_g);
                }
            },
            None => {
                proof {
                    lemma_images_contains(self.images@, name@);
                }
                self.images.push((name, stored));
                proof {
                    assert(self.images@.drop_last() =~= old(self).images@);
                }
            },
        }
        Ok(img)
    }

    /// Retrieves a copy of the image stored under `name`, if any.
    pub fn get_image(&self, name: &String) -> (r: Option<Image>)
        requires
            self.wf(),
        ensures
            match r {
                Some(img) => self@.contains_key(name@) && img@ == self@[name@],
                None => !self@.contains_key(name@),
            },
    {
        match self.find(name) {
            Some(i) => Some(self.images[i].1.clone()),
            None => None,
        }
    }
}

} // verus!
