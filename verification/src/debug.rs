//! Debug statistics shown by the overlay renderer.

use vstd::prelude::*;
use vstd::string::StringExecFns;

verus! {

/// The character for one decimal digit.
pub open spec fn digit_char(d: nat) -> char {
    if d == 0 {
        '0'
    } else if d == 1 {
        '1'
    } else if d == 2 {
        '2'
    } else if d == 3 {
        '3'
    } else if d == 4 {
        '4'
    } else if d == 5 {
        '5'
    } else if d == 6 {
        '6'
    } else if d == 7 {
        '7'
    } else if d == 8 {
        '8'
    } else {
        '9'
    }
}

/// The decimal digits of `n`, most significant first.
pub open spec fn spec_decimal(n: nat) -> Seq<char>
    decreases n,
{
    if n < 10 {
        seq![digit_char(n)]
    } else {
        spec_decimal(n / 10).push(digit_char(n % 10))
    }
}

/// The string for one decimal digit.
fn digit_str(d: u64) -> (r: &'static str)
    requires
        d < 10,
    ensures
        r@ =~= seq![digit_char(d as nat)],
{
    proof {
        reveal_strlit("0");
        reveal_strlit("1");
        reveal_strlit("2");
        reveal_strlit("3");
        reveal_strlit("4");
        reveal_strlit("5");
        reveal_strlit("6");
        reveal_strlit("7");
        reveal_strlit("8");
        reveal_strlit("9");
    }
    match d {
        0 => "0",
        1 => "1",
        2 => "2",
        3 => "3",
        4 => "4",
        5 => "5",
        6 => "6",
        7 => "7",
        8 => "8",
        _ => "9",
    }
}

/// Renders `n` in decimal, most significant digit first, no leading
/// zeroes.
pub fn decimal_string(n: u64) -> (s: String)
    ensures
        s@ =~= spec_decimal(n as nat),
    decreases n,
{
    if n < 10 {
        digit_str(n).to_owned()
    } else {
        let mut s = decimal_string(n / 10);
        s.append(digit_str(n % 10));
        s
    }
}

/// A labelled statistic shown by the debug overlay.
pub struct DebugStatistic {
    label: String,
    value: String,
}

impl DebugStatistic {
    /// The statistic's label.
    pub closed spec fn spec_label(&self) -> Seq<char> {
        self.label@
    }

    /// The statistic's current value.
    pub closed spec fn spec_value(&self) -> Seq<char> {
        self.value@
    }

    /// Creates a new debug statistic with the given label and initial
    /// value.
    pub fn new(label: String, initial_value: String) -> (stat: Self)
        ensures
            stat.spec_label() == label@,
            stat.spec_value() == initial_value@,
    {
        DebugStatistic { label, value: initial_value }
    }

    /// Updates the value of the debug statistic.
    pub fn update_value(&mut self, new_value: String)
        ensures
            final(self).spec_label() == old(self).spec_label(),
            final(self).spec_value() == new_value@,
    {
        self.value = new_value;
    }

    /// The statistic's label.
    pub fn label(&self) -> (r: &String)
        ensures
            r@ == self.spec_label(),
    {
        &self.label
    }

    /// The statistic's current value.
    pub fn value(&self) -> (r: &String)
        ensures
            r@ == self.spec_value(),
    {
        &self.value
    }
}

/// Debug state of the world renderer: the number of faces currently
/// rendered, mirrored into a statistic for the overlay.
pub struct WorldDebugState {
    face_count: usize,
    face_count_provider: DebugStatistic,
}

impl WorldDebugState {
    /// The face count last recorded.
    pub closed spec fn spec_face_count(&self) -> usize {
        self.face_count
    }

    /// The statistic mirroring the face count.
    pub closed spec fn spec_provider(&self) -> DebugStatistic {
        self.face_count_provider
    }

    /// Creates the world debug state around the statistic that will show
    /// the face count.
    pub fn new(face_count_provider: DebugStatistic) -> (state: Self)
        ensures
            state.spec_face_count() == 0,
            state.spec_provider() == face_count_provider,
    {
        WorldDebugState { face_count: 0, face_count_provider }
    }

    /// Records a new face count and mirrors it, in decimal, into the
    /// statistic.
    pub fn update_face_count(&mut self, new_count: usize)
        requires
            new_count <= u64::MAX,
        ensures
            final(self).spec_face_count() == new_count,
            final(self).spec_provider().spec_label() == old(self).spec_provider().spec_label(),
            final(self).spec_provider().spec_value() =~= spec_decimal(new_count as nat),
    {
        self.face_count = new_count;
        let rendered = decimal_string(new_count as u64);
        self.face_count_provider.update_value(rendered);
    }

    /// The statistic mirroring the face count.
    pub fn statistic(&self) -> (r: &DebugStatistic)
        ensures
            *r == self.spec_provider(),
    {
        &self.face_count_provider
    }
}

} // verus!
