//! Reading the sample lines of a turn's input.
use vstd::prelude::*;
use crate::carried_by::CarriedBy;
use crate::molecules::{letter_counts, token_counts, Counts, Molecules};
use crate::sample::{health_of, rank_of, Sample, SampleHealth, SampleRank};
use crate::token::{int_in, parse_int_in};

verus! {

/// The tokens of a sample line: id, holder, rank, gain letter, health value
/// and five costs.
pub open spec fn sample_line_ok(t: Seq<&str>) -> bool {
    &&& t.len() >= 10
    &&& int_in(t[0]@, u8::MIN as int, u8::MAX as int) is Some
    &&& int_in(t[1]@, -1, 1) is Some
    &&& int_in(t[2]@, 1, 3) is Some
    &&& t[3]@.len() > 0
    &&& int_in(t[4]@, i8::MIN as int, i8::MAX as int) is Some
    &&& token_counts(t.subrange(5, 10)) is Some
}

/// The holder a number stands for: `0` this robot, `1` the opponent, `-1`
/// the shared pool.
pub open spec fn carrier_of(v: int) -> CarriedBy {
    if v == 0 {
        CarriedBy::Me
    } else if v == 1 {
        CarriedBy::Other
    } else {
        CarriedBy::Cloud
    }
}

/// The `Molecules` value with the given counts.
pub open spec fn molecules_of(c: Counts) -> Molecules {
    Molecules { a: c.a as i32, b: c.b as i32, c: c.c as i32, d: c.d as i32, e: c.e as i32 }
}

/// The holder a well-formed sample line names.
pub open spec fn line_carrier(t: Seq<&str>) -> CarriedBy {
    carrier_of(int_in(t[1]@, -1, 1)->0)
}

/// The sample a well-formed sample line describes.
pub open spec fn line_sample(t: Seq<&str>) -> Sample {
    Sample::spec_new(
        int_in(t[0]@, u8::MIN as int, u8::MAX as int)->0 as u8,
        rank_of(int_in(t[2]@, 1, 3)->0),
        health_of(int_in(t[4]@, i8::MIN as int, i8::MAX as int)->0),
        token_counts(t.subrange(5, 10))->0,
        molecules_of(letter_counts(t[3]@[0])),
    )
}

/// The samples of `lines` held by `who`, in line order.
pub open spec fn samples_of(lines: Seq<Seq<&str>>, who: CarriedBy) -> Seq<Sample>
    decreases lines.len(),
{
    if lines.len() == 0 {
        Seq::empty()
    } else {
        let rest = samples_of(lines.drop_last(), who);
        if line_carrier(lines.last()) == who {
            rest.push(line_sample(lines.last()))
        } else {
            rest
        }
    }
}

/// The sample a line's tokens describe, with its holder; `None` when a token
/// is missing or malformed.
pub fn parse_sample_line(tokens: &[&str]) -> (r: Option<(CarriedBy, Sample)>)
    ensures
        r is Some <==> sample_line_ok(tokens@),
        r matches Some((c, s)) ==> c == line_carrier(tokens@) && s == line_sample(tokens@)
            && s.wf(),
{
    if tokens.len() < 10 {
        return None;
    }
    let sample_id = match parse_int_in(tokens[0], u8::MIN as i64, u8::MAX as i64) {
        Some(v) => v as u8,
        None => {
            return None;
        },
    };
    let carried_by = match parse_int_in(tokens[1], -1, 1) {
        Some(v) => match CarriedBy::from_integer(v as i8) {
            Some(c) => c,
            None => {
                return None;
            },
        },
        None => {
            return None;
        },
    };
    let rank = match parse_int_in(tokens[2], 1, 3) {
        Some(v) => match SampleRank::from_integer(v as i8) {
            Some(k) => k,
            None => {
                return None;
            },
        },
        None => {
            return None;
        },
    };
    if tokens[3].unicode_len() == 0 {
        return None;
    }
    let expertise_gain = Molecules::from_letter(tokens[3].get_char(0));
    let health = match parse_int_in(tokens[4], i8::MIN as i64, i8::MAX as i64) {
        Some(v) => SampleHealth::from_integer(v as i8),
        None => {
            return None;
        },
    };
    let cost = match Molecules::from_slice(vstd::slice::slice_subrange(tokens, 5, 10)) {
        Some(m) => m,
        None => {
            return None;
        },
    };
    let sample = Sample::new(sample_id, rank, health, cost, expertise_gain);
    assert(expertise_gain == molecules_of(letter_counts(tokens@[3]@[0])));
    Some((carried_by, sample))
}

/// Among the first `i` lines `who` holds no more samples than among all.
pub proof fn lemma_samples_of_prefix(lines: Seq<Seq<&str>>, i: int, who: CarriedBy)
    requires
        0 <= i <= lines.len(),
    ensures
        samples_of(lines.subrange(0, i), who).len() <= samples_of(lines, who).len(),
    decreases lines.len() - i,
{
    if i < lines.len() {
        lemma_samples_of_prefix(lines, i + 1, who);
        let next = lines.subrange(0, i + 1);
        assert(next.drop_last() =~= lines.subrange(0, i));
    } else {
        assert(lines.subrange(0, i) =~= lines);
    }
}

} // verus!
