//! Transcript files: how they are named and numbered within one client's
//! directory, and how a saved game is referred to.

use vstd::prelude::*;
use vstd::string::StringSliceAdditionalSpecFns;
use crate::bytes::{append_bytes, same_bytes};
use crate::position::Position;

verus! {

/// The largest number a transcript can have.
pub const MAX_INDEX: u32 = 2147483647;

/// Why no transcript name could be chosen.
#[derive(Clone, Copy, Debug, PartialEq, Eq, Structural)]
pub enum TranscriptError {
    /// The directory holds a name that is not a transcript's.
    ForeignName,
    /// The directory holds the transcript with the largest number.
    Exhausted,
}

/// What every transcript name begins with.
pub open spec fn name_prefix() -> Seq<u8> {
    "game-".spec_bytes()
}

/// What every transcript name ends with.
pub open spec fn name_suffix() -> Seq<u8> {
    ".board".spec_bytes()
}

/// Whether `b` is a decimal digit.
pub open spec fn is_digit(b: u8) -> bool {
    '0' as u8 <= b <= '9' as u8
}

/// Whether `s` holds decimal digits only.
pub open spec fn all_digits(s: Seq<u8>) -> bool {
    forall|i: int| 0 <= i < s.len() ==> is_digit(#[trigger] s[i])
}

/// The number that the decimal digits `s` write.
pub open spec fn decimal_value(s: Seq<u8>) -> nat
    decreases s.len(),
{
    if s.len() == 0 {
        0
    } else {
        (decimal_value(s.drop_last()) * 10 + (s.last() - '0' as u8)) as nat
    }
}

/// The decimal digits of `n`, without leading zeros.
pub open spec fn decimal_of(n: nat) -> Seq<u8>
    decreases n,
{
    if n < 10 {
        seq![('0' as u8 + n) as u8]
    } else {
        decimal_of(n / 10).push(('0' as u8 + n % 10) as u8)
    }
}

/// The name of the transcript with the number `n`.
pub open spec fn file_name_of(n: nat) -> Seq<u8> {
    name_prefix() + decimal_of(n) + name_suffix()
}

/// What stands between the prefix and the suffix of a name that is long
/// enough to hold both.
pub open spec fn name_middle(name: Seq<u8>) -> Seq<u8> {
    name.subrange(name_prefix().len() as int, name.len() - name_suffix().len())
}

/// The number of the transcript called `name`, if `name` is a transcript's
/// name: the prefix, then one or more decimal digits that write a number no
/// larger than `MAX_INDEX`, then the suffix.
pub open spec fn index_of(name: Seq<u8>) -> Option<nat> {
    if name.len() > name_prefix().len() + name_suffix().len() && name.subrange(
        0,
        name_prefix().len() as int,
    ) == name_prefix() && name.subrange(name.len() - name_suffix().len(), name.len() as int)
        == name_suffix() && all_digits(name_middle(name)) && decimal_value(name_middle(name))
        <= MAX_INDEX {
        Some(decimal_value(name_middle(name)))
    } else {
        None
    }
}

/// The largest number among the transcripts in `names`, and 0 if there is
/// none.
pub open spec fn highest_index(names: Seq<Seq<u8>>) -> nat
    decreases names.len(),
{
    if names.len() == 0 {
        0
    } else {
        let before = highest_index(names.drop_last());
        match index_of(names.last()) {
            Some(n) => if n > before {
                n
            } else {
                before
            },
            None => before,
        }
    }
}

/// Whether every name in `names` is a transcript's.
pub open spec fn all_transcripts(names: Seq<Seq<u8>>) -> bool {
    forall|i: int| 0 <= i < names.len() ==> index_of(#[trigger] names[i]) is Some
}

/// The reference under which the transcript `filename` can be fetched.
pub open spec fn reference_of(filename: Seq<u8>) -> Seq<u8> {
    "https://chess.waltersmuts.com/".spec_bytes() + filename + ".html".spec_bytes()
}

/// Where the transcript `name` of `client` lies: the client's directory, a
/// `/`, and the name.
pub open spec fn path_of(client: Seq<u8>, name: Seq<u8>) -> Seq<u8> {
    client + seq!['/' as u8] + name
}

/// The line that the position `position` takes in a transcript: its text and
/// a line feed.
pub open spec fn line_of(position: Seq<u8>) -> Seq<u8> {
    position.push('\n' as u8)
}

/// Reading a longer run of digits never gives a smaller number.
pub proof fn lemma_value_grows(s: Seq<u8>, n: int)
    requires
        0 <= n <= s.len(),
        all_digits(s),
    ensures
        decimal_value(s.subrange(0, n)) <= decimal_value(s),
    decreases s.len() - n,
{
    if n < s.len() {
        assert(s.subrange(0, n + 1).drop_last() =~= s.subrange(0, n));
        assert(is_digit(s[n]));
        lemma_value_grows(s, n + 1);
    } else {
        assert(s.subrange(0, n) =~= s);
    }
}

/// The digits of a number write that number.
pub proof fn lemma_decimal_round_trip(n: nat)
    ensures
        decimal_of(n).len() > 0,
        all_digits(decimal_of(n)),
        decimal_value(decimal_of(n)) == n,
    decreases n,
{
    if n < 10 {
        let s = decimal_of(n);
        assert(s.drop_last() =~= Seq::<u8>::empty());
        assert(decimal_value(s.drop_last()) == 0);
    } else {
        lemma_decimal_round_trip(n / 10);
        let s = decimal_of(n);
        assert(s.drop_last() =~= decimal_of(n / 10));
    }
}

/// A transcript's name says its number: the name made for `n` is read back
/// as `n`.
pub proof fn lemma_file_name_round_trip(n: nat)
    requires
        n <= MAX_INDEX,
    ensures
        index_of(file_name_of(n)) == Some(n),
{
    lemma_decimal_round_trip(n);
    let name = file_name_of(n);
    assert(name.subrange(0, name_prefix().len() as int) =~= name_prefix());
    assert(name.subrange(name.len() - name_suffix().len(), name.len() as int) =~= name_suffix());
    assert(name_middle(name) =~= decimal_of(n));
}

/// No transcript in `names` has a number above the highest.
pub proof fn lemma_highest_bounds(names: Seq<Seq<u8>>, i: int)
    requires
        0 <= i < names.len(),
    ensures
        index_of(names[i]) matches Some(n) ==> n <= highest_index(names),
        highest_index(names) <= MAX_INDEX,
    decreases names.len(),
{
    let rest = names.drop_last();
    if rest.len() > 0 {
        lemma_highest_bounds(
            rest,
            if i < rest.len() {
                i
            } else {
                0
            },
        );
    } else {
        assert(highest_index(rest) == 0);
    }
}

/// The name that comes after every transcript in `names` belongs to none of
/// them.
pub proof fn lemma_next_name_is_new(names: Seq<Seq<u8>>, i: int)
    requires
        0 <= i < names.len(),
        highest_index(names) < MAX_INDEX,
    ensures
        names[i] != file_name_of(highest_index(names) + 1),
{
    lemma_highest_bounds(names, i);
    lemma_file_name_round_trip(highest_index(names) + 1);
}

/// The decimal digits of `n`.
pub fn decimal(n: u32) -> (r: Vec<u8>)
    ensures
        r@ == decimal_of(n as nat),
    decreases n,
{
    if n < 10 {
        let mut out: Vec<u8> = Vec::new();
        out.push('0' as u8 + n as u8);
        assert(out@ =~= decimal_of(n as nat));
        out
    } else {
        let mut out = decimal(n / 10);
        out.push('0' as u8 + (n % 10) as u8);
        out
    }
}

/// The number that `digits` write, if they are one or more decimal digits
/// and the number is no larger than `MAX_INDEX`.
pub fn parse_decimal(digits: &[u8]) -> (r: Option<u32>)
    ensures
        r is Some <==> digits@.len() > 0 && all_digits(digits@) && decimal_value(digits@)
            <= MAX_INDEX,
        r matches Some(n) ==> n == decimal_value(digits@),
{
    if digits.len() == 0 {
        return None;
    }
    let mut value: u32 = 0;
    let mut i: usize = 0;
    assert(digits@.subrange(0, 0) =~= Seq::<u8>::empty());
    while i < digits.len()
        invariant
            i <= digits@.len(),
            all_digits(digits@.subrange(0, i as int)),
            value == decimal_value(digits@.subrange(0, i as int)),
            value <= MAX_INDEX,
        decreases digits@.len() - i,
    {
        let b: u8 = digits[i];
        let ghost before = digits@.subrange(0, i as int);
        let ghost after = digits@.subrange(0, i + 1);
        assert(after.drop_last() =~= before);
        if b < '0' as u8 || b > '9' as u8 {
            assert(!is_digit(digits@[i as int]));
            return None;
        }
        let d: u32 = (b - '0' as u8) as u32;
        if value > (MAX_INDEX - d) / 10 {
            proof {
                assert(all_digits(after)) by {
                    assert forall|j: int| 0 <= j < after.len() implies is_digit(
                        #[trigger] after[j],
                    ) by {
                        if j < i {
                            assert(after[j] == before[j]);
                        }
                    }
                }
                if all_digits(digits@) {
                    lemma_value_grows(digits@, i + 1);
                }
            }
            return None;
        }
        value = value * 10 + d;
        assert(all_digits(after)) by {
            assert forall|j: int| 0 <= j < after.len() implies is_digit(#[trigger] after[j]) by {
                if j < i {
                    assert(after[j] == before[j]);
                }
            }
        }
        i += 1;
    }
    assert(digits@.subrange(0, digits@.len() as int) =~= digits@);
    Some(value)
}

/// The number of the transcript called `name`, if `name` is a transcript's
/// name.
pub fn transcript_index(name: &[u8]) -> (r: Option<u32>)
    ensures
        r is Some <==> index_of(name@) is Some,
        r matches Some(n) ==> index_of(name@) == Some(n as nat),
{
    let prefix = "game-".as_bytes();
    let suffix = ".board".as_bytes();
    if name.len() <= prefix.len() || name.len() - prefix.len() <= suffix.len() {
        return None;
    }
    let split: usize = name.len() - suffix.len();
    if !same_bytes(vstd::slice::slice_subrange(name, 0, prefix.len()), prefix) {
        return None;
    }
    if !same_bytes(vstd::slice::slice_subrange(name, split, name.len()), suffix) {
        return None;
    }
    parse_decimal(vstd::slice::slice_subrange(name, prefix.len(), split))
}

/// The name of the transcript with the number `n`.
pub fn file_name(n: u32) -> (r: Vec<u8>)
    ensures
        r@ == file_name_of(n as nat),
{
    let mut out: Vec<u8> = Vec::new();
    append_bytes(&mut out, "game-".as_bytes());
    let digits = decimal(n);
    append_bytes(&mut out, digits.as_slice());
    append_bytes(&mut out, ".board".as_bytes());
    out
}

/// The number for the next transcript in a directory that holds `names`: one
/// more than the highest there, and 1 in an empty directory.
pub fn next_index(names: &Vec<Vec<u8>>) -> (r: Result<u32, TranscriptError>)
    ensures
        !all_transcripts(names.deep_view()) ==> r == Err::<u32, TranscriptError>(
            TranscriptError::ForeignName,
        ),
        all_transcripts(names.deep_view()) && highest_index(names.deep_view()) == MAX_INDEX ==> r
            == Err::<u32, TranscriptError>(TranscriptError::Exhausted),
        all_transcripts(names.deep_view()) && highest_index(names.deep_view()) < MAX_INDEX ==> r
            == Ok::<u32, TranscriptError>((highest_index(names.deep_view()) + 1) as u32),
        r matches Ok(next) ==> forall|i: int|
            0 <= i < names.len() ==> (#[trigger] index_of(names.deep_view()[i]))->Some_0 < next,
{
    let ghost all = names.deep_view();
    let mut highest: u32 = 0;
    let mut i: usize = 0;
    assert(all.subrange(0, 0) =~= Seq::<Seq<u8>>::empty());
    while i < names.len()
        invariant
            all == names.deep_view(),
            i <= names.len(),
            all_transcripts(all.subrange(0, i as int)),
            highest == highest_index(all.subrange(0, i as int)),
            highest <= MAX_INDEX,
        decreases names.len() - i,
    {
        let ghost before = all.subrange(0, i as int);
        let ghost after = all.subrange(0, i + 1);
        assert(after.drop_last() =~= before);
        assert(after.last() == names[i as int]@);
        match transcript_index(names[i].as_slice()) {
            None => {
                assert(index_of(all[i as int]) is None);
                return Err(TranscriptError::ForeignName);
            },
            Some(n) => {
                if n > highest {
                    highest = n;
                }
            },
        }
        assert(all_transcripts(after)) by {
            assert forall|j: int| 0 <= j < after.len() implies index_of(
                #[trigger] after[j],
            ) is Some by {
                if j < i {
                    assert(after[j] == before[j]);
                }
            }
        }
        i += 1;
    }
    assert(all.subrange(0, names.len() as int) =~= all);
    assert forall|i: int| 0 <= i < names.len() implies (#[trigger] index_of(all[i]))->Some_0
        <= highest by {
        lemma_highest_bounds(all, i);
    }
    if highest == MAX_INDEX {
        Err(TranscriptError::Exhausted)
    } else {
        Ok(highest + 1)
    }
}

/// The reference under which the transcript `filename` can be fetched.
pub fn reference(filename: &[u8]) -> (r: Vec<u8>)
    ensures
        r@ == reference_of(filename@),
{
    let mut out: Vec<u8> = Vec::new();
    append_bytes(&mut out, "https://chess.waltersmuts.com/".as_bytes());
    append_bytes(&mut out, filename);
    append_bytes(&mut out, ".html".as_bytes());
    out
}

/// Where the transcript `name` of `client` lies.
pub fn path(client: &[u8], name: &[u8]) -> (r: Vec<u8>)
    ensures
        r@ == path_of(client@, name@),
{
    let mut out: Vec<u8> = Vec::new();
    append_bytes(&mut out, client);
    out.push('/' as u8);
    append_bytes(&mut out, name);
    out
}

/// The line that `position` takes in a transcript.
pub fn transcript_line(position: &Position) -> (r: Vec<u8>)
    ensures
        r@ == line_of(position@),
{
    let mut out: Vec<u8> = Vec::new();
    append_bytes(&mut out, position.text());
    out.push('\n' as u8);
    out
}

} // verus!
