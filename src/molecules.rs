//! Five-kind molecule counts and the arithmetic on them.
use vstd::prelude::*;
use crate::token::{int_in, parse_int_in};

verus! {

/// One kind of molecule. The order of the variants is the canonical order
/// `A < B < C < D < E` in which a single kind is chosen when several qualify.
#[derive(Clone, Copy, Debug, PartialEq, Eq, Structural)]
pub enum Molecule {
    A,
    B,
    C,
    D,
    E,
}

/// Exact per-kind counts: the mathematical model of [`Molecules`].
pub struct Counts {
    pub a: int,
    pub b: int,
    pub c: int,
    pub d: int,
    pub e: int,
}

impl Counts {
    pub open spec fn zero() -> Counts {
        Counts { a: 0, b: 0, c: 0, d: 0, e: 0 }
    }

    pub open spec fn plus(self, o: Counts) -> Counts {
        Counts { a: self.a + o.a, b: self.b + o.b, c: self.c + o.c, d: self.d + o.d, e: self.e + o.e }
    }

    pub open spec fn minus(self, o: Counts) -> Counts {
        Counts { a: self.a - o.a, b: self.b - o.b, c: self.c - o.c, d: self.d - o.d, e: self.e - o.e }
    }

    /// The componentwise minimum.
    pub open spec fn min_with(self, o: Counts) -> Counts {
        Counts {
            a: if self.a < o.a { self.a } else { o.a },
            b: if self.b < o.b { self.b } else { o.b },
            c: if self.c < o.c { self.c } else { o.c },
            d: if self.d < o.d { self.d } else { o.d },
            e: if self.e < o.e { self.e } else { o.e },
        }
    }

    /// Every negative component replaced by zero.
    pub open spec fn clamped(self) -> Counts {
        Counts {
            a: if self.a < 0 { 0 } else { self.a },
            b: if self.b < 0 { 0 } else { self.b },
            c: if self.c < 0 { 0 } else { self.c },
            d: if self.d < 0 { 0 } else { self.d },
            e: if self.e < 0 { 0 } else { self.e },
        }
    }

    pub open spec fn total(self) -> int {
        self.a + self.b + self.c + self.d + self.e
    }

    pub open spec fn all_non_positive(self) -> bool {
        self.a <= 0 && self.b <= 0 && self.c <= 0 && self.d <= 0 && self.e <= 0
    }

    pub open spec fn any_negative(self) -> bool {
        self.a < 0 || self.b < 0 || self.c < 0 || self.d < 0 || self.e < 0
    }

    /// `self` holds at least `need` of every kind.
    pub open spec fn covers(self, need: Counts) -> bool {
        !self.minus(need).any_negative()
    }

    /// The first kind, in canonical order, whose count is positive.
    pub open spec fn first_positive(self) -> Option<Molecule> {
        if self.a > 0 {
            Some(Molecule::A)
        } else if self.b > 0 {
            Some(Molecule::B)
        } else if self.c > 0 {
            Some(Molecule::C)
        } else if self.d > 0 {
            Some(Molecule::D)
        } else if self.e > 0 {
            Some(Molecule::E)
        } else {
            None
        }
    }

    pub open spec fn count(self, k: Molecule) -> int {
        match k {
            Molecule::A => self.a,
            Molecule::B => self.b,
            Molecule::C => self.c,
            Molecule::D => self.d,
            Molecule::E => self.e,
        }
    }

    /// Every component lies in `lo..=hi`.
    pub open spec fn within(self, lo: int, hi: int) -> bool {
        &&& lo <= self.a <= hi
        &&& lo <= self.b <= hi
        &&& lo <= self.c <= hi
        &&& lo <= self.d <= hi
        &&& lo <= self.e <= hi
    }

    /// Every component lies in the range of an `i8`, the values a turn's
    /// input can carry.
    pub open spec fn in_i8_range(self) -> bool {
        self.within(i8::MIN as int, i8::MAX as int)
    }

    /// Every component can be held in an `i32`.
    pub open spec fn fits(self) -> bool {
        self.within(i32::MIN as int, i32::MAX as int)
    }

    /// One molecule of kind `k`, none of the others.
    pub open spec fn unit(k: Molecule) -> Counts {
        match k {
            Molecule::A => Counts { a: 1, b: 0, c: 0, d: 0, e: 0 },
            Molecule::B => Counts { a: 0, b: 1, c: 0, d: 0, e: 0 },
            Molecule::C => Counts { a: 0, b: 0, c: 1, d: 0, e: 0 },
            Molecule::D => Counts { a: 0, b: 0, c: 0, d: 1, e: 0 },
            Molecule::E => Counts { a: 0, b: 0, c: 0, d: 0, e: 1 },
        }
    }
}

/// The letter of each kind on the wire.
pub open spec fn letter_of(k: Molecule) -> char {
    match k {
        Molecule::A => 'A',
        Molecule::B => 'B',
        Molecule::C => 'C',
        Molecule::D => 'D',
        Molecule::E => 'E',
    }
}

/// The position of a kind in canonical order.
pub open spec fn kind_index(k: Molecule) -> int {
    match k {
        Molecule::A => 0,
        Molecule::B => 1,
        Molecule::C => 2,
        Molecule::D => 3,
        Molecule::E => 4,
    }
}

/// The kind a letter names, if any.
pub open spec fn kind_of_letter(c: char) -> Option<Molecule> {
    if c == 'A' {
        Some(Molecule::A)
    } else if c == 'B' {
        Some(Molecule::B)
    } else if c == 'C' {
        Some(Molecule::C)
    } else if c == 'D' {
        Some(Molecule::D)
    } else if c == 'E' {
        Some(Molecule::E)
    } else {
        None
    }
}

/// One molecule of the kind a letter names; none for any other character.
pub open spec fn letter_counts(c: char) -> Counts {
    match kind_of_letter(c) {
        Some(k) => Counts::unit(k),
        None => Counts::zero(),
    }
}

/// The counts the first five tokens spell, each an `i8`.
pub open spec fn token_counts(t: Seq<&str>) -> Option<Molecules> {
    if t.len() >= 5 && int_in(t[0]@, i8::MIN as int, i8::MAX as int) is Some && int_in(
        t[1]@,
        i8::MIN as int,
        i8::MAX as int,
    ) is Some && int_in(t[2]@, i8::MIN as int, i8::MAX as int) is Some && int_in(
        t[3]@,
        i8::MIN as int,
        i8::MAX as int,
    ) is Some && int_in(t[4]@, i8::MIN as int, i8::MAX as int) is Some {
        Some(
            Molecules {
                a: int_in(t[0]@, i8::MIN as int, i8::MAX as int)->0 as i32,
                b: int_in(t[1]@, i8::MIN as int, i8::MAX as int)->0 as i32,
                c: int_in(t[2]@, i8::MIN as int, i8::MAX as int)->0 as i32,
                d: int_in(t[3]@, i8::MIN as int, i8::MAX as int)->0 as i32,
                e: int_in(t[4]@, i8::MIN as int, i8::MAX as int)->0 as i32,
            },
        )
    } else {
        None
    }
}

fn parse_i8_token(t: &str) -> (r: Option<i32>)
    ensures
        match r {
            Some(v) => int_in(t@, i8::MIN as int, i8::MAX as int) == Some(v as int),
            None => int_in(t@, i8::MIN as int, i8::MAX as int) is None,
        },
{
    match parse_int_in(t, i8::MIN as i64, i8::MAX as i64) {
        Some(v) => Some(v as i32),
        None => None,
    }
}

impl Molecule {
    pub fn as_char(&self) -> (r: char)
        ensures
            r == letter_of(*self),
    {
        match self {
            Molecule::A => 'A',
            Molecule::B => 'B',
            Molecule::C => 'C',
            Molecule::D => 'D',
            Molecule::E => 'E',
        }
    }
}

/// A count for each of the five kinds. Components may be negative: a
/// negative component of a difference is a surplus, a positive one a deficit.
#[derive(Clone, Copy, Debug, PartialEq, Eq, Structural)]
pub struct Molecules {
    pub a: i32,
    pub b: i32,
    pub c: i32,
    pub d: i32,
    pub e: i32,
}

impl View for Molecules {
    type V = Counts;

    open spec fn view(&self) -> Counts {
        Counts { a: self.a as int, b: self.b as int, c: self.c as int, d: self.d as int, e: self.e as int }
    }
}

impl Molecules {
    /// All components zero.
    pub fn new() -> (r: Self)
        ensures
            r@ == Counts::zero(),
    {
        Molecules { a: 0, b: 0, c: 0, d: 0, e: 0 }
    }

    /// The counts spelled by the first five tokens of `slice`, each an
    /// `i8`; `None` when there are fewer or one does not spell an `i8`.
    pub fn from_slice(slice: &[&str]) -> (r: Option<Self>)
        ensures
            r == token_counts(slice@),
            r matches Some(m) ==> m@.in_i8_range(),
    {
        if slice.len() < 5 {
            return None;
        }
        let a = parse_i8_token(slice[0]);
        let b = parse_i8_token(slice[1]);
        let c = parse_i8_token(slice[2]);
        let d = parse_i8_token(slice[3]);
        let e = parse_i8_token(slice[4]);
        match (a, b, c, d, e) {
            (Some(a), Some(b), Some(c), Some(d), Some(e)) => Some(Molecules { a, b, c, d, e }),
            _ => None,
        }
    }

    /// Sum of the components.
    pub fn len(&self) -> (r: i32)
        requires
            i32::MIN <= self@.total() <= i32::MAX,
        ensures
            r == self@.total(),
    {
        let sum: i64 = self.a as i64 + self.b as i64 + self.c as i64 + self.d as i64
            + self.e as i64;
        sum as i32
    }

    /// No component is positive.
    pub fn is_not_positive(&self) -> (r: bool)
        ensures
            r == self@.all_non_positive(),
    {
        self.a <= 0 && self.b <= 0 && self.c <= 0 && self.d <= 0 && self.e <= 0
    }

    /// One molecule of the kind named by `letter`; all zero for any other
    /// character.
    pub fn from_letter(letter: char) -> (r: Self)
        ensures
            r@ == letter_counts(letter),
    {
        let mut molecules = Molecules::new();
        if letter == 'A' {
            molecules.a = 1;
        } else if letter == 'B' {
            molecules.b = 1;
        } else if letter == 'C' {
            molecules.c = 1;
        } else if letter == 'D' {
            molecules.d = 1;
        } else if letter == 'E' {
            molecules.e = 1;
        }
        molecules
    }

    /// Each negative component replaced by zero.
    pub fn set_minues_to_zero(&self) -> (r: Molecules)
        ensures
            r@ == self@.clamped(),
    {
        let mut new_non_zero = *self;
        if new_non_zero.a < 0 {
            new_non_zero.a = 0;
        }
        if new_non_zero.b < 0 {
            new_non_zero.b = 0;
        }
        if new_non_zero.c < 0 {
            new_non_zero.c = 0;
        }
        if new_non_zero.d < 0 {
            new_non_zero.d = 0;
        }
        if new_non_zero.e < 0 {
            new_non_zero.e = 0;
        }
        new_non_zero
    }

    /// `self` holds at least `required` of every kind.
    pub fn has_enough(&self, required: &Molecules) -> (r: bool)
        ensures
            r == self@.covers(required@),
    {
        self.a >= required.a && self.b >= required.b && self.c >= required.c && self.d
            >= required.d && self.e >= required.e
    }

    /// The first kind, in canonical order, with a positive count.
    pub fn get_next_molecule(&self) -> (r: Option<Molecule>)
        ensures
            r == self@.first_positive(),
    {
        if self.a > 0 {
            Some(Molecule::A)
        } else if self.b > 0 {
            Some(Molecule::B)
        } else if self.c > 0 {
            Some(Molecule::C)
        } else if self.d > 0 {
            Some(Molecule::D)
        } else if self.e > 0 {
            Some(Molecule::E)
        } else {
            None
        }
    }

    /// Some component is negative.
    pub fn has_any_negatives(&self) -> (r: bool)
        ensures
            r == self@.any_negative(),
    {
        self.a < 0 || self.b < 0 || self.c < 0 || self.d < 0 || self.e < 0
    }

    /// Componentwise minimum.
    pub fn min_with(&self, other: &Molecules) -> (r: Molecules)
        ensures
            r@ == self@.min_with(other@),
    {
        Molecules {
            a: if self.a < other.a { self.a } else { other.a },
            b: if self.b < other.b { self.b } else { other.b },
            c: if self.c < other.c { self.c } else { other.c },
            d: if self.d < other.d { self.d } else { other.d },
            e: if self.e < other.e { self.e } else { other.e },
        }
    }

    /// Componentwise sum.
    pub fn add(&self, other: &Molecules) -> (r: Molecules)
        requires
            self@.plus(other@).fits(),
        ensures
            r@ == self@.plus(other@),
    {
        Molecules {
            a: self.a + other.a,
            b: self.b + other.b,
            c: self.c + other.c,
            d: self.d + other.d,
            e: self.e + other.e,
        }
    }

    /// Componentwise difference; negative components are kept.
    pub fn sub(&self, other: &Molecules) -> (r: Molecules)
        requires
            self@.minus(other@).fits(),
        ensures
            r@ == self@.minus(other@),
    {
        Molecules {
            a: self.a - other.a,
            b: self.b - other.b,
            c: self.c - other.c,
            d: self.d - other.d,
            e: self.e - other.e,
        }
    }
}


/// Adding `b` and then subtracting it gives back `a`.
pub proof fn lemma_add_then_sub(a: Molecules, b: Molecules)
    requires
        a@.plus(b@).fits(),
    ensures
        a@.plus(b@).minus(b@) == a@,
{
}

/// Clamping negative components to zero a second time changes nothing.
pub proof fn lemma_clamp_idempotent(v: Molecules)
    ensures
        v@.clamped().clamped() == v@.clamped(),
{
}

/// A vector without negative components covers the zero requirement. (One
/// with a negative component does not: it falls short of zero there.)
pub proof fn lemma_covers_zero(v: Molecules)
    requires
        !v@.any_negative(),
    ensures
        v@.covers(Counts::zero()),
{
}

/// There is no first positive kind exactly when no component is positive;
/// when there is one, its count is positive and every earlier kind's is not.
pub proof fn lemma_first_positive(v: Molecules)
    ensures
        v@.first_positive() is None <==> v@.all_non_positive(),
        v@.first_positive() matches Some(k) ==> v@.count(k) > 0 && forall|j: Molecule|
            #![trigger v@.count(j)]
            kind_index(j) < kind_index(k) ==> v@.count(j) <= 0,
{
}

} // verus!
