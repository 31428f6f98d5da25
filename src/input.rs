use vstd::prelude::*;

verus! {

/// A discrete player intent; each one owns exactly one bit of an `InputSet`.
#[derive(Clone, Copy, Debug, PartialEq, Eq, Structural)]
pub enum Intent {
    UpRight,
    Up,
    UpLeft,
    DownLeft,
    Down,
    DownRight,
    Interact,
}

/// The single bit that stands for an intent.
pub open spec fn intent_bit(i: Intent) -> u8 {
    match i {
        Intent::UpRight => 1,
        Intent::Up => 2,
        Intent::UpLeft => 4,
        Intent::DownLeft => 8,
        Intent::Down => 16,
        Intent::DownRight => 32,
        Intent::Interact => 64,
    }
}

/// The bit of the byte that no intent uses.
pub const UNUSED_BIT: u8 = 128;

/// One tick's intents, one bit each; the all-zero value means "nothing held".
///
/// The layout is a single byte, so the value can be sent and replayed as is.
#[derive(Clone, Copy, Debug, PartialEq, Eq, Structural)]
pub struct InputSet(pub u8);

/// Whether every bit of `probe` is set in `set`.
pub open spec fn has_bits(set: u8, probe: u8) -> bool {
    set & probe == probe
}

impl View for InputSet {
    type V = Set<Intent>;

    /// The intents whose bit is set.
    open spec fn view(&self) -> Set<Intent> {
        Set::new(|i: Intent| has_bits(self.0, intent_bit(i)))
    }
}

impl Intent {
    /// The value that holds this intent alone.
    pub fn input_set(self) -> (r: InputSet)
        ensures
            r.bits() == intent_bit(self),
            r.wf(),
    {
        match self {
            Intent::UpRight => InputSet(1),
            Intent::Up => InputSet(2),
            Intent::UpLeft => InputSet(4),
            Intent::DownLeft => InputSet(8),
            Intent::Down => InputSet(16),
            Intent::DownRight => InputSet(32),
            Intent::Interact => InputSet(64),
        }
    }
}

impl InputSet {
    /// No intent held.
    pub fn empty() -> (r: InputSet)
        ensures
            r.bits() == 0,
    {
        InputSet(0)
    }

    pub open spec fn bits(self) -> u8 {
        self.0
    }

    /// Only intent bits are set.
    pub open spec fn wf(self) -> bool {
        self.0 < UNUSED_BIT
    }

    /// The raw byte, as it is sent to other peers.
    pub fn to_bits(self) -> (r: u8)
        ensures
            r == self.bits(),
    {
        self.0
    }

    /// The value whose layout is the given byte.
    pub fn from_bits(b: u8) -> (r: InputSet)
        ensures
            r.bits() == b,
    {
        InputSet(b)
    }

    /// Whether `self` holds every intent of `input` (all of them, not just one).
    pub fn contains(self, input: InputSet) -> (r: bool)
        ensures
            r == has_bits(self.bits(), input.bits()),
    {
        self.0 & input.0 == input.0
    }

    /// Set union.
    pub fn union(self, rhs: InputSet) -> (r: InputSet)
        ensures
            r.bits() == self.bits() | rhs.bits(),
    {
        InputSet(self.0 | rhs.0)
    }

    /// Set intersection.
    pub fn intersection(self, rhs: InputSet) -> (r: InputSet)
        ensures
            r.bits() == self.bits() & rhs.bits(),
    {
        InputSet(self.0 & rhs.0)
    }
}


/// Each intent's value is a single bit, and two distinct intents never share it.
pub proof fn lemma_intent_bits_disjoint(i: Intent, j: Intent)
    ensures
        intent_bit(i) != 0,
        intent_bit(i) < UNUSED_BIT,
        i != j ==> intent_bit(i) & intent_bit(j) == 0,
{
    let x = intent_bit(i);
    let y = intent_bit(j);
    assert((x == 1 || x == 2 || x == 4 || x == 8 || x == 16 || x == 32 || x == 64) && (y == 1
        || y == 2 || y == 4 || y == 8 || y == 16 || y == 32 || y == 64) ==> (x != 0 && (x != y ==> x & y
        == 0))) by (bit_vector);
}

proof fn lemma_or_keeps_bit(a: u8, b: u8, m: u8)
    requires
        m == 1 || m == 2 || m == 4 || m == 8 || m == 16 || m == 32 || m == 64,
    ensures
        has_bits(a | b, m) == (has_bits(a, m) || has_bits(b, m)),
{
    assert((m == 1 || m == 2 || m == 4 || m == 8 || m == 16 || m == 32 || m == 64) ==> (((a | b) & m == m) == (a & m == m || b & m == m)))
        by (bit_vector);
}

proof fn lemma_or_below(a: u8, b: u8)
    requires
        a < 128,
        b < 128,
    ensures
        a | b < 128,
{
    assert(a < 128 && b < 128 ==> a | b < 128) by (bit_vector);
}

/// Union of two input sets is the union of the intents they hold, and stays well formed.
pub proof fn lemma_union(a: InputSet, b: InputSet)
    requires
        a.wf(),
        b.wf(),
    ensures
        InputSet(a.0 | b.0).wf(),
        InputSet(a.0 | b.0)@ == a@.union(b@),
{
    lemma_or_below(a.0, b.0);
    assert forall|i: Intent| #[trigger] InputSet(a.0 | b.0)@.contains(i) == a@.union(b@).contains(i) by {
        lemma_intent_bits_disjoint(i, i);
        lemma_or_keeps_bit(a.0, b.0, intent_bit(i));
    }
    assert(InputSet(a.0 | b.0)@ =~= a@.union(b@));
}

/// The empty input set holds no intent.
pub proof fn lemma_empty()
    ensures
        InputSet(0)@ == Set::<Intent>::empty(),
        InputSet(0).wf(),
{
    assert forall|i: Intent| !#[trigger] InputSet(0)@.contains(i) by {
        let m = intent_bit(i);
        lemma_intent_bits_disjoint(i, i);
        assert(m != 0 ==> 0u8 & m != m) by (bit_vector);
    }
    assert(InputSet(0)@ =~= Set::<Intent>::empty());
}

/// An intent's own value holds that intent and no other.
pub proof fn lemma_single(i: Intent)
    ensures
        InputSet(intent_bit(i))@ == set![i],
        InputSet(intent_bit(i)).wf(),
{
    assert forall|j: Intent| #[trigger] InputSet(intent_bit(i))@.contains(j) == (i == j) by {
        lemma_intent_bits_disjoint(j, i);
        let x = intent_bit(j);
        let y = intent_bit(i);
        assert(x != 0 && x & y == 0 ==> y & x != x) by (bit_vector);
        assert(y & y == y) by (bit_vector);
    }
    lemma_intent_bits_disjoint(i, i);
    assert(InputSet(intent_bit(i))@ =~= set![i]);
}

/// For well-formed sets, `contains` holds exactly when the probe's intents are a subset.
pub proof fn lemma_contains_is_subset(set: InputSet, probe: InputSet)
    requires
        set.wf(),
        probe.wf(),
    ensures
        has_bits(set.0, probe.0) == probe@.subset_of(set@),
{
    let a = set.0;
    let b = probe.0;
    if has_bits(a, b) {
        assert forall|i: Intent| #[trigger] probe@.contains(i) implies set@.contains(i) by {
            let m = intent_bit(i);
            assert(a & b == b && b & m == m ==> a & m == m) by (bit_vector);
        }
    }
    if probe@.subset_of(set@) {
        assert(probe@.contains(Intent::UpRight) ==> set@.contains(Intent::UpRight));
        assert(probe@.contains(Intent::Up) ==> set@.contains(Intent::Up));
        assert(probe@.contains(Intent::UpLeft) ==> set@.contains(Intent::UpLeft));
        assert(probe@.contains(Intent::DownLeft) ==> set@.contains(Intent::DownLeft));
        assert(probe@.contains(Intent::Down) ==> set@.contains(Intent::Down));
        assert(probe@.contains(Intent::DownRight) ==> set@.contains(Intent::DownRight));
        assert(probe@.contains(Intent::Interact) ==> set@.contains(Intent::Interact));
        assert((b & 1 == 1 ==> a & 1 == 1) && (b & 2 == 2 ==> a & 2 == 2) && (b & 4 == 4 ==> a & 4
            == 4) && (b & 8 == 8 ==> a & 8 == 8) && (b & 16 == 16 ==> a & 16 == 16) && (b & 32 == 32
            ==> a & 32 == 32) && (b & 64 == 64 ==> a & 64 == 64) && b < 128 ==> a & b == b)
            by (bit_vector);
    }
}

/// Two well-formed input sets that hold the same intents are the same value.
pub proof fn lemma_view_determines_value(a: InputSet, b: InputSet)
    requires
        a.wf(),
        b.wf(),
        a@ == b@,
    ensures
        a == b,
{
    lemma_contains_is_subset(a, b);
    lemma_contains_is_subset(b, a);
    let x = a.0;
    let y = b.0;
    assert(x & y == y && y & x == x ==> x == y) by (bit_vector);
}

/// Two inputs that each hold a single, different intent are each one bit, and
/// share none.
pub proof fn lemma_single_keys_disjoint(r1: InputSet, r2: InputSet, i: Intent, j: Intent)
    requires
        r1.wf(),
        r2.wf(),
        r1@ == set![i],
        r2@ == set![j],
        i != j,
    ensures
        r1.0 == intent_bit(i),
        r2.0 == intent_bit(j),
        r1.0 & r2.0 == 0,
{
    lemma_single(i);
    lemma_single(j);
    lemma_view_determines_value(r1, InputSet(intent_bit(i)));
    lemma_view_determines_value(r2, InputSet(intent_bit(j)));
    lemma_intent_bits_disjoint(i, j);
}

/// For encodings `s1`, `s2` of the intent sets `t1`, `t2`: their bitwise union is
/// the encoding of the union of `t1` and `t2` (and equals any other encoding `both` of it); nothing
/// encodes to the zero byte; and `s1` contains `s2` exactly when `t2` is a subset of `t1`.
pub proof fn lemma_encoding_laws(
    s1: InputSet,
    s2: InputSet,
    both: InputSet,
    t1: Set<Intent>,
    t2: Set<Intent>,
)
    requires
        s1.wf(),
        s2.wf(),
        both.wf(),
        s1@ == t1,
        s2@ == t2,
        both@ == t1.union(t2),
    ensures
        InputSet(s1.0 | s2.0)@ == t1.union(t2),
        InputSet(s1.0 | s2.0) == both,
        InputSet(0)@ == Set::<Intent>::empty(),
        has_bits(s1.0, s2.0) == t2.subset_of(t1),
{
    lemma_union(s1, s2);
    lemma_view_determines_value(InputSet(s1.0 | s2.0), both);
    lemma_empty();
    lemma_contains_is_subset(s1, s2);
}

/// The input set that holds exactly the given intents.
pub fn encode(intents: &Vec<Intent>) -> (r: InputSet)
    ensures
        r.wf(),
        r@ == intents@.to_set(),
{
    let mut acc = InputSet::empty();
    proof {
        lemma_empty();
    }
    let mut k: usize = 0;
    while k < intents.len()
        invariant
            k <= intents.len(),
            acc.wf(),
            forall|i: Intent| #[trigger] acc@.contains(i) <==> exists|j: int| 0 <= j < k && intents@[j] == i,
        decreases intents.len() - k,
    {
        let one = intents[k].input_set();
        proof {
            lemma_single(intents@[k as int]);
            lemma_union(acc, one);
        }
        let next = acc.union(one);
        assert forall|i: Intent| #[trigger] next@.contains(i) <==> exists|j: int| 0 <= j < k + 1 && intents@[j] == i by {
            if next@.contains(i) && i != intents@[k as int] {
                let j = choose|j: int| 0 <= j < k && intents@[j] == i;
            }
        }
        acc = next;
        k = k + 1;
    }
    assert(acc@ =~= intents@.to_set());
    acc
}

/// Folds into one set every intent whose control is held: each entry pairs
/// a control's state with the intent it is bound to.
pub fn input(controls: &Vec<(bool, Intent)>) -> (r: InputSet)
    ensures
        r.wf(),
        r@ == Set::new(|i: Intent| exists|j: int| 0 <= j < controls.len() && controls@[j] == (true, i)),
{
    let mut acc = InputSet::empty();
    proof {
        lemma_empty();
    }
    let mut k: usize = 0;
    while k < controls.len()
        invariant
            k <= controls.len(),
            acc.wf(),
            forall|i: Intent| #[trigger] acc@.contains(i) <==> exists|j: int| 0 <= j < k && controls@[j] == (true, i),
        decreases controls.len() - k,
    {
        let (held, intent) = controls[k];
        if held {
            let one = intent.input_set();
            proof {
                lemma_single(intent);
                lemma_union(acc, one);
            }
            let next = acc.union(one);
            assert forall|i: Intent| #[trigger] next@.contains(i) <==> exists|j: int| 0 <= j < k + 1 && controls@[j] == (true, i) by {
                if next@.contains(i) && i != intent {
                    let j = choose|j: int| 0 <= j < k && controls@[j] == (true, i);
                }
            }
            acc = next;
        } else {
            assert forall|i: Intent| #[trigger] acc@.contains(i) <==> exists|j: int| 0 <= j < k + 1 && controls@[j] == (true, i) by {
                if exists|j: int| 0 <= j < k + 1 && controls@[j] == (true, i) {
                    let j = choose|j: int| 0 <= j < k + 1 && controls@[j] == (true, i);
                    assert(j != k);
                }
            }
        }
        k = k + 1;
    }
    assert(acc@ =~= Set::new(|i: Intent| exists|j: int| 0 <= j < controls.len() && controls@[j] == (true, i)));
    acc
}

} // verus!
