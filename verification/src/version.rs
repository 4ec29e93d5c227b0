//! The semantic-version model: the (major, minor, patch) triple and the bump
//! state transitions, together with the canonical decimal rendering of a
//! version and its parser.

use vstd::prelude::*;

verus! {

/// A semantic version: an ordered (major, minor, patch) triple of
/// non-negative integers. Pre-release and build metadata are not modeled.
#[derive(Clone, Copy, PartialEq, Eq, Structural, Debug)]
pub struct Version {
    pub major: u64,
    pub minor: u64,
    pub patch: u64,
}

/// Which component of a version a bump raises. A pure input selecting the
/// transition function; it carries no state.
#[derive(Clone, Copy, PartialEq, Eq, Structural, Debug)]
pub enum Digit {
    Major,
    Minor,
    Patch,
}

/// The component of `v` that a bump of kind `digit` raises.
pub open spec fn bumped_component(v: Version, digit: Digit) -> u64 {
    match digit {
        Digit::Major => v.major,
        Digit::Minor => v.minor,
        Digit::Patch => v.patch,
    }
}

/// The bump transition as a mathematical function of the old version:
/// the selected component is raised by one and every lower component is
/// reset to zero.
pub open spec fn spec_bump(v: Version, digit: Digit) -> Version {
    match digit {
        Digit::Major => Version { major: (v.major + 1) as u64, minor: 0, patch: 0 },
        Digit::Minor => Version { major: v.major, minor: (v.minor + 1) as u64, patch: 0 },
        Digit::Patch => Version { major: v.major, minor: v.minor, patch: (v.patch + 1) as u64 },
    }
}

impl Version {
    /// Builds the version (major, minor, patch).
    pub fn new(major: u64, minor: u64, patch: u64) -> (v: Version)
        ensures
            v == (Version { major, minor, patch }),
    {
        Version { major, minor, patch }
    }

    /// Raises the major component and resets minor and patch.
    pub fn bump_major(&mut self)
        requires
            old(self).major < u64::MAX,
        ensures
            *final(self) == spec_bump(*old(self), Digit::Major),
            final(self).major == old(self).major + 1,
            final(self).minor == 0,
            final(self).patch == 0,
    {
        self.bump(Digit::Major)
    }

    /// Raises the minor component and resets patch; major is unchanged.
    pub fn bump_minor(&mut self)
        requires
            old(self).minor < u64::MAX,
        ensures
            *final(self) == spec_bump(*old(self), Digit::Minor),
            final(self).major == old(self).major,
            final(self).minor == old(self).minor + 1,
            final(self).patch == 0,
    {
        self.bump(Digit::Minor)
    }

    /// Raises the patch component; major and minor are unchanged.
    pub fn bump_patch(&mut self)
        requires
            old(self).patch < u64::MAX,
        ensures
            *final(self) == spec_bump(*old(self), Digit::Patch),
            final(self).major == old(self).major,
            final(self).minor == old(self).minor,
            final(self).patch == old(self).patch + 1,
    {
        self.bump(Digit::Patch)
    }

    /// Applies one bump transition in place. Raising a component that already
    /// sits at the integer maximum is refused by the precondition rather than
    /// silently wrapped.
    pub fn bump(&mut self, digit: Digit)
        requires
            bumped_component(*old(self), digit) < u64::MAX,
        ensures
            *final(self) == spec_bump(*old(self), digit),
    {
        match digit {
            Digit::Major => {
                self.major = self.major + 1;
                self.minor = 0;
                self.patch = 0;
            }
            Digit::Minor => {
                self.minor = self.minor + 1;
                self.patch = 0;
            }
            Digit::Patch => {
                self.patch = self.patch + 1;
            }
        }
    }
}

/// True of an ASCII decimal digit byte.
pub open spec fn is_digit(b: u8) -> bool {
    48 <= b && b <= 57
}

/// The byte of the ASCII dot that separates version components.
pub const DOT: u8 = 46;

/// The canonical decimal rendering of `n`: most significant digit first, no
/// leading zero except for the single digit of zero itself.
pub open spec fn spec_decimal(n: nat) -> Seq<u8>
    decreases n,
{
    if n < 10 {
        seq![(48 + n) as u8]
    } else {
        spec_decimal(n / 10).push((48 + n % 10) as u8)
    }
}

/// The number a digit sequence denotes, most significant digit first.
pub open spec fn spec_value(s: Seq<u8>) -> int
    decreases s.len(),
{
    if s.len() == 0 {
        0
    } else {
        spec_value(s.drop_last()) * 10 + s.last() - 48
    }
}

/// The canonical text of a version: the three decimal components joined by
/// dots, as bytes.
pub open spec fn spec_version_text(v: Version) -> Seq<u8> {
    spec_decimal(v.major as nat) + seq![DOT] + spec_decimal(v.minor as nat) + seq![DOT]
        + spec_decimal(v.patch as nat)
}

/// A canonical decimal is never empty.
proof fn lemma_decimal_len(n: nat)
    ensures
        spec_decimal(n).len() >= 1,
    decreases n,
{
    if n >= 10 {
        lemma_decimal_len(n / 10);
    }
}

/// A canonical decimal holds digit bytes alone.
proof fn lemma_decimal_digits(n: nat)
    ensures
        forall|i: int| 0 <= i < spec_decimal(n).len() ==> is_digit(#[trigger] spec_decimal(n)[i]),
    decreases n,
{
    if n < 10 {
        assert forall|i: int| 0 <= i < spec_decimal(n).len() implies is_digit(
            #[trigger] spec_decimal(n)[i],
        ) by {
            assert(spec_decimal(n)[i] == (48 + n) as u8);
        }
    } else {
        lemma_decimal_digits(n / 10);
        assert forall|i: int| 0 <= i < spec_decimal(n).len() implies is_digit(
            #[trigger] spec_decimal(n)[i],
        ) by {
            if i < spec_decimal(n).len() - 1 {
                assert(spec_decimal(n)[i] == spec_decimal(n / 10)[i]);
            } else {
                assert(spec_decimal(n)[i] == (48 + n % 10) as u8);
            }
        }
    }
}

/// A canonical decimal denotes the number it renders.
proof fn lemma_decimal_value(n: nat)
    ensures
        spec_value(spec_decimal(n)) == n,
    decreases n,
{
    if n < 10 {
        assert(spec_decimal(n).drop_last() =~= Seq::<u8>::empty());
        assert(spec_value(spec_decimal(n).drop_last()) == 0);
        assert(spec_decimal(n).last() == (48 + n) as u8);
    } else {
        lemma_decimal_value(n / 10);
        vstd::arithmetic::div_mod::lemma_fundamental_div_mod(n as int, 10);
        assert(spec_decimal(n).drop_last() =~= spec_decimal(n / 10));
        assert(spec_value(spec_decimal(n).drop_last()) == n / 10);
        assert(spec_decimal(n).last() == (48 + n % 10) as u8);
    }
}

/// A positive number's decimal never begins with a zero digit.
proof fn lemma_decimal_leading(n: nat)
    requires
        n >= 1,
    ensures
        spec_decimal(n)[0] != 48,
    decreases n,
{
    if n >= 10 {
        lemma_decimal_leading(n / 10);
        lemma_decimal_len(n / 10);
    }
}

/// The value a digit sequence denotes is non-negative.
proof fn lemma_value_nonneg(s: Seq<u8>)
    requires
        forall|j: int| 0 <= j < s.len() ==> is_digit(#[trigger] s[j]),
    ensures
        spec_value(s) >= 0,
    decreases s.len(),
{
    if s.len() > 0 {
        lemma_value_nonneg(s.drop_last());
    }
}

/// Extending a digit sequence with more digits never lowers its value.
proof fn lemma_value_prefix(s: Seq<u8>, k: int)
    requires
        0 <= k <= s.len(),
        forall|j: int| 0 <= j < s.len() ==> is_digit(#[trigger] s[j]),
    ensures
        spec_value(s.take(k)) <= spec_value(s),
    decreases s.len() - k,
{
    if k < s.len() {
        lemma_value_prefix(s.drop_last(), k);
        assert(s.drop_last().take(k) =~= s.take(k));
        lemma_value_nonneg(s.drop_last());
    } else {
        assert(s.take(k) =~= s);
    }
}

/// Two maximal digit runs that begin at the same place end at the same place.
proof fn lemma_run_end_unique(s: Seq<u8>, a: int, e1: int, e2: int)
    requires
        0 <= a,
        a <= e1 <= s.len(),
        a <= e2 <= s.len(),
        forall|j: int| a <= j < e1 ==> is_digit(#[trigger] s[j]),
        e1 == s.len() || !is_digit(s[e1]),
        forall|j: int| a <= j < e2 ==> is_digit(#[trigger] s[j]),
        e2 == s.len() || !is_digit(s[e2]),
    ensures
        e1 == e2,
{
    if e1 < e2 {
        assert(is_digit(s[e1]));
        assert(false);
    }
    if e2 < e1 {
        assert(is_digit(s[e2]));
        assert(false);
    }
}

/// The canonical text of a version determines the version: no two distinct
/// versions share a rendering.
pub proof fn lemma_version_text_injective(a: Version, b: Version)
    requires
        spec_version_text(a) == spec_version_text(b),
    ensures
        a == b,
{
    let s = spec_version_text(a);
    let la = spec_decimal(a.major as nat).len() as int;
    let lb = spec_decimal(b.major as nat).len() as int;
    lemma_decimal_len(a.major as nat);
    lemma_decimal_len(b.major as nat);
    lemma_decimal_digits(a.major as nat);
    lemma_decimal_digits(b.major as nat);
    lemma_decimal_len(a.minor as nat);
    lemma_decimal_len(b.minor as nat);
    lemma_decimal_digits(a.minor as nat);
    lemma_decimal_digits(b.minor as nat);
    lemma_decimal_digits(a.patch as nat);
    lemma_decimal_digits(b.patch as nat);
    assert forall|j: int| 0 <= j < la implies is_digit(#[trigger] s[j]) by {
        assert(s[j] == spec_decimal(a.major as nat)[j]);
    }
    assert(s[la] == DOT) by {
        assert(s[la] == (seq![DOT])[0]);
    }
    assert forall|j: int| 0 <= j < lb implies is_digit(#[trigger] s[j]) by {
        assert(s[j] == spec_decimal(b.major as nat)[j]);
    }
    assert(s[lb] == DOT) by {
        assert(spec_version_text(b)[lb] == (seq![DOT])[0]);
    }
    lemma_run_end_unique(s, 0, la, lb);
    assert(spec_decimal(a.major as nat) =~= s.subrange(0, la));
    assert(spec_decimal(b.major as nat) =~= s.subrange(0, la));
    lemma_decimal_value(a.major as nat);
    lemma_decimal_value(b.major as nat);
    assert(a.major == b.major);
    let ma = spec_decimal(a.minor as nat).len() as int;
    let mb = spec_decimal(b.minor as nat).len() as int;
    assert forall|j: int| la + 1 <= j < la + 1 + ma implies is_digit(#[trigger] s[j]) by {
        assert(s[j] == spec_decimal(a.minor as nat)[j - la - 1]);
    }
    assert(s[la + 1 + ma] == DOT) by {
        assert(s[la + 1 + ma] == (seq![DOT])[0]);
    }
    assert forall|j: int| la + 1 <= j < la + 1 + mb implies is_digit(#[trigger] s[j]) by {
        assert(spec_version_text(b)[j] == spec_decimal(b.minor as nat)[j - lb - 1]);
    }
    assert(s[la + 1 + mb] == DOT) by {
        assert(spec_version_text(b)[lb + 1 + mb] == (seq![DOT])[0]);
    }
    lemma_run_end_unique(s, la + 1, la + 1 + ma, la + 1 + mb);
    assert(spec_decimal(a.minor as nat) =~= s.subrange(la + 1, la + 1 + ma));
    assert(spec_decimal(b.minor as nat) =~= s.subrange(la + 1, la + 1 + ma));
    lemma_decimal_value(a.minor as nat);
    lemma_decimal_value(b.minor as nat);
    assert(a.minor == b.minor);
    let pa = spec_decimal(a.patch as nat).len() as int;
    let pb = spec_decimal(b.patch as nat).len() as int;
    assert(s.len() == la + 1 + ma + 1 + pa);
    assert(s.len() == lb + 1 + mb + 1 + pb);
    assert(spec_decimal(a.patch as nat) =~= s.subrange(la + 1 + ma + 1, s.len() as int));
    assert(spec_decimal(b.patch as nat) =~= s.subrange(la + 1 + ma + 1, s.len() as int));
    lemma_decimal_value(a.patch as nat);
    lemma_decimal_value(b.patch as nat);
    assert(a.patch == b.patch);
}

/// Scans the run of decimal digits that begins at `start`. Returns the value
/// the run denotes and the position just past it when the run is the
/// canonical decimal of a value in range; returns `None` when no canonical
/// decimal of an in-range value stands at `start` as a maximal digit run.
fn scan_component(s: &Vec<u8>, start: usize) -> (r: Option<(u64, usize)>)
    requires
        start <= s@.len(),
    ensures
        r matches Some((value, end)) ==> start < end <= s@.len() && s@.subrange(
            start as int,
            end as int,
        ) == spec_decimal(value as nat) && (end == s@.len() || !is_digit(s@[end as int])),
        r is None ==> forall|n: u64, end: int|
            start < end <= s@.len() && (end == s@.len() || !is_digit(s@[end])) ==> s@.subrange(
                start as int,
                end,
            ) != spec_decimal(n as nat),
{
    let len = s.len();
    if start == len || s[start] < 48 || s[start] > 57 {
        proof {
            assert forall|n: u64, end: int|
                start < end <= s@.len() && (end == s@.len() || !is_digit(s@[end]))
                    implies s@.subrange(start as int, end) != spec_decimal(n as nat) by {
                lemma_decimal_len(n as nat);
                lemma_decimal_digits(n as nat);
                if s@.subrange(start as int, end) == spec_decimal(n as nat) {
                    assert(spec_decimal(n as nat)[0] == s@[start as int]);
                    assert(false);
                }
            }
        }
        return None;
    }
    let d0 = s[start] - 48;
    if d0 == 0 {
        if start + 1 < len && 48 <= s[start + 1] && s[start + 1] <= 57 {
            proof {
                assert forall|n: u64, end: int|
                    start < end <= s@.len() && (end == s@.len() || !is_digit(s@[end]))
                        implies s@.subrange(start as int, end) != spec_decimal(n as nat) by {
                    lemma_decimal_len(n as nat);
                    if s@.subrange(start as int, end) == spec_decimal(n as nat) {
                        if end == start + 1 {
                            // a maximal run cannot stop before the next digit
                            assert(is_digit(s@[end]));
                            assert(false);
                        } else {
                            // a longer run would begin with a zero digit
                            assert(spec_decimal(n as nat)[0] == 48);
                            if n >= 1 {
                                lemma_decimal_leading(n as nat);
                                assert(false);
                            }
                            assert(spec_decimal(0nat).len() == 1);
                            assert(false);
                        }
                    }
                }
            }
            return None;
        }
        proof {
            assert(s@.subrange(start as int, start + 1) =~= spec_decimal(0nat));
        }
        return Some((0, start + 1));
    }
    let mut value: u64 = d0 as u64;
    let mut i: usize = start + 1;
    proof {
        assert(s@.subrange(start as int, start + 1) =~= spec_decimal(value as nat));
    }
    while i < len && 48 <= s[i] && s[i] <= 57
        invariant
            start < i <= len,
            len == s@.len(),
            1 <= value,
            forall|j: int| start <= j < i ==> is_digit(#[trigger] s@[j]),
            s@.subrange(start as int, i as int) == spec_decimal(value as nat),
        decreases len - i,
    {
        let d = s[i] - 48;
        let limit = u64::MAX / 10;
        let rem = (u64::MAX % 10) as u8;
        if value > limit || (value == limit && d > rem) {
            proof {
                vstd::arithmetic::div_mod::lemma_fundamental_div_mod(u64::MAX as int, 10);
                assert(u64::MAX / 10 == 1844674407370955161);
                assert(u64::MAX % 10 == 5);
                assert(value * 10 + d > u64::MAX);
                assert forall|n: u64, end: int|
                    start < end <= s@.len() && (end == s@.len() || !is_digit(s@[end]))
                        implies s@.subrange(start as int, end) != spec_decimal(n as nat) by {
                    lemma_decimal_digits(n as nat);
                    if s@.subrange(start as int, end) == spec_decimal(n as nat) {
                        // the run extends at least past position i, and its
                        // value already exceeds the range there
                        if end <= i {
                            assert(is_digit(s@[end]));
                            assert(false);
                        }
                        let run = s@.subrange(start as int, end);
                        let head = s@.subrange(start as int, i + 1);
                        assert(head =~= run.take(i + 1 - start));
                        assert(head =~= s@.subrange(start as int, i as int).push(s@[i as int]));
                        assert(spec_value(head) == value * 10 + d) by {
                            lemma_decimal_value(value as nat);
                            assert(head.drop_last() =~= s@.subrange(start as int, i as int));
                        }
                        lemma_value_prefix(run, i + 1 - start);
                        lemma_decimal_value(n as nat);
                        assert(n > u64::MAX);
                        assert(false);
                    }
                }
            }
            return None;
        }
        let new_value = value * 10 + (d as u64);
        proof {
            vstd::arithmetic::div_mod::lemma_fundamental_div_mod_converse(
                new_value as int,
                10,
                value as int,
                d as int,
            );
            assert(new_value as nat / 10 == value as nat);
            assert(new_value as nat % 10 == d as nat);
            assert(s@.subrange(start as int, i + 1) =~= s@.subrange(start as int, i as int).push(
                s@[i as int],
            ));
            assert(spec_decimal(new_value as nat) == spec_decimal(value as nat).push(
                (48 + new_value as nat % 10) as u8,
            ));
            assert(s@.subrange(start as int, i + 1) == spec_decimal(new_value as nat));
        }
        value = new_value;
        i = i + 1;
    }
    Some((value, i))
}

/// Renders `n` as its canonical decimal bytes.
fn decimal_bytes(n: u64) -> (r: Vec<u8>)
    ensures
        r@ == spec_decimal(n as nat),
    decreases n,
{
    if n < 10 {
        let mut v: Vec<u8> = Vec::new();
        v.push(48 + (n as u8));
        proof {
            assert(v@ =~= spec_decimal(n as nat));
        }
        v
    } else {
        let mut v = decimal_bytes(n / 10);
        v.push(48 + ((n % 10) as u8));
        proof {
            assert(v@ =~= spec_decimal(n as nat));
        }
        v
    }
}

/// Position of the dot after the major component in a version's text.
spec fn first_dot(v: Version) -> int {
    spec_decimal(v.major as nat).len() as int
}

/// Position of the dot after the minor component in a version's text.
spec fn second_dot(v: Version) -> int {
    first_dot(v) + 1 + spec_decimal(v.minor as nat).len() as int
}

/// How a version's text decomposes: a digit run up to the first dot, a digit
/// run up to the second dot, and a digit run to the end, each run the
/// canonical decimal of its component.
proof fn lemma_text_structure(s: Seq<u8>, v: Version)
    requires
        s == spec_version_text(v),
    ensures
        1 <= first_dot(v),
        first_dot(v) + 2 <= second_dot(v),
        second_dot(v) + 2 <= s.len(),
        forall|j: int| 0 <= j < first_dot(v) ==> is_digit(#[trigger] s[j]),
        s[first_dot(v)] == DOT,
        s.subrange(0, first_dot(v)) == spec_decimal(v.major as nat),
        forall|j: int| first_dot(v) + 1 <= j < second_dot(v) ==> is_digit(#[trigger] s[j]),
        s[second_dot(v)] == DOT,
        s.subrange(first_dot(v) + 1, second_dot(v)) == spec_decimal(v.minor as nat),
        forall|j: int| second_dot(v) + 1 <= j < s.len() ==> is_digit(#[trigger] s[j]),
        s.subrange(second_dot(v) + 1, s.len() as int) == spec_decimal(v.patch as nat),
{
    let l1 = first_dot(v);
    let l2 = second_dot(v);
    lemma_decimal_len(v.major as nat);
    lemma_decimal_len(v.minor as nat);
    lemma_decimal_len(v.patch as nat);
    lemma_decimal_digits(v.major as nat);
    lemma_decimal_digits(v.minor as nat);
    lemma_decimal_digits(v.patch as nat);
    assert forall|j: int| 0 <= j < l1 implies is_digit(#[trigger] s[j]) by {
        assert(s[j] == spec_decimal(v.major as nat)[j]);
    }
    assert(s[l1] == (seq![DOT])[0]);
    assert(s.subrange(0, l1) =~= spec_decimal(v.major as nat));
    assert forall|j: int| l1 + 1 <= j < l2 implies is_digit(#[trigger] s[j]) by {
        assert(s[j] == spec_decimal(v.minor as nat)[j - l1 - 1]);
    }
    assert(s[l2] == (seq![DOT])[0]);
    assert(s.subrange(l1 + 1, l2) =~= spec_decimal(v.minor as nat));
    assert forall|j: int| l2 + 1 <= j < s.len() implies is_digit(#[trigger] s[j]) by {
        assert(s[j] == spec_decimal(v.patch as nat)[j - l2 - 1]);
    }
    assert(s.subrange(l2 + 1, s.len() as int) =~= spec_decimal(v.patch as nat));
}

/// The bytes of a digit run whose subrange is a canonical decimal are digits.
proof fn lemma_run_digits(s: Seq<u8>, a: int, e: int, n: nat)
    requires
        0 <= a <= e <= s.len(),
        s.subrange(a, e) == spec_decimal(n),
    ensures
        forall|j: int| a <= j < e ==> is_digit(#[trigger] s[j]),
{
    lemma_decimal_digits(n);
    assert forall|j: int| a <= j < e implies is_digit(#[trigger] s[j]) by {
        assert(s[j] == s.subrange(a, e)[j - a]);
    }
}

/// True of bytes that hold only decimal digits and dots, the shape of every
/// version text.
pub open spec fn is_version_literal(s: Seq<u8>) -> bool {
    forall|i: int| 0 <= i < s.len() ==> (is_digit(#[trigger] s[i]) || s[i] == DOT)
}

/// A version's text holds only digits and dots.
pub proof fn lemma_version_text_literal(v: Version)
    ensures
        is_version_literal(spec_version_text(v)),
{
    let s = spec_version_text(v);
    lemma_text_structure(s, v);
    assert forall|i: int| 0 <= i < s.len() implies (is_digit(#[trigger] s[i]) || s[i] == DOT) by {
        if i < first_dot(v) {
        } else if i == first_dot(v) {
        } else if i < second_dot(v) {
        } else if i == second_dot(v) {
        }
    }
}

/// The characters of a version's canonical text: its bytes are ASCII, each
/// one the character of the same code.
pub open spec fn spec_version_chars(v: Version) -> Seq<char> {
    spec_version_text(v).map_values(|b: u8| b as char)
}

/// Relies on `String::from_utf8`: ASCII bytes decode to the string whose
/// characters are exactly those bytes.
#[verifier::external_body]
fn ascii_string(bytes: &Vec<u8>) -> (r: String)
    requires
        forall|i: int| 0 <= i < bytes@.len() ==> #[trigger] bytes@[i] < 128,
    ensures
        r@ == bytes@.map_values(|b: u8| b as char),
{
    String::from_utf8(bytes.clone()).unwrap_or_default()
}

impl Version {
    /// The canonical text of this version.
    pub fn to_text(&self) -> (r: String)
        ensures
            r@ == spec_version_chars(*self),
    {
        let bytes = self.text_bytes();
        proof {
            lemma_version_text_literal(*self);
            assert(forall|i: int| 0 <= i < bytes@.len() ==> #[trigger] bytes@[i] < 128);
        }
        ascii_string(&bytes)
    }

    /// The canonical text of this version, as bytes: the three decimal
    /// components joined by dots.
    pub fn text_bytes(&self) -> (r: Vec<u8>)
        ensures
            r@ == spec_version_text(*self),
    {
        let mut out = decimal_bytes(self.major);
        out.push(DOT);
        let mut mid = decimal_bytes(self.minor);
        out.append(&mut mid);
        out.push(DOT);
        let mut tail = decimal_bytes(self.patch);
        out.append(&mut tail);
        proof {
            assert(out@ =~= spec_version_text(*self));
        }
        out
    }
}

/// Parses the canonical text of a version: returns the version whose text is
/// exactly `s`, and `None` where `s` is no version's text (a malformed
/// shape, a leading zero, or a component out of range).
pub fn parse_version(s: &Vec<u8>) -> (r: Option<Version>)
    ensures
        r matches Some(v) ==> s@ == spec_version_text(v),
        r is None ==> forall|v: Version| s@ != #[trigger] spec_version_text(v),
{
    let len = s.len();
    let first = scan_component(s, 0);
    if first.is_none() {
        proof {
            assert forall|v: Version| s@ != #[trigger] spec_version_text(v) by {
                if s@ == spec_version_text(v) {
                    lemma_text_structure(s@, v);
                    assert(s@.subrange(0, first_dot(v)) != spec_decimal(v.major as nat));
                    assert(false);
                }
            }
        }
        return None;
    }
    let (major, i) = first.unwrap();
    if i == len || s[i] != DOT {
        proof {
            assert forall|v: Version| s@ != #[trigger] spec_version_text(v) by {
                if s@ == spec_version_text(v) {
                    lemma_text_structure(s@, v);
                    lemma_run_digits(s@, 0, i as int, major as nat);
                    lemma_run_end_unique(s@, 0, i as int, first_dot(v));
                    assert(false);
                }
            }
        }
        return None;
    }
    let second = scan_component(s, i + 1);
    if second.is_none() {
        proof {
            assert forall|v: Version| s@ != #[trigger] spec_version_text(v) by {
                if s@ == spec_version_text(v) {
                    lemma_text_structure(s@, v);
                    lemma_run_digits(s@, 0, i as int, major as nat);
                    lemma_run_end_unique(s@, 0, i as int, first_dot(v));
                    assert(s@.subrange(first_dot(v) + 1, second_dot(v)) != spec_decimal(
                        v.minor as nat,
                    ));
                    assert(false);
                }
            }
        }
        return None;
    }
    let (minor, j) = second.unwrap();
    if j == len || s[j] != DOT {
        proof {
            assert forall|v: Version| s@ != #[trigger] spec_version_text(v) by {
                if s@ == spec_version_text(v) {
                    lemma_text_structure(s@, v);
                    lemma_run_digits(s@, 0, i as int, major as nat);
                    lemma_run_end_unique(s@, 0, i as int, first_dot(v));
                    lemma_run_digits(s@, i + 1, j as int, minor as nat);
                    lemma_run_end_unique(s@, i + 1, j as int, second_dot(v));
                    assert(false);
                }
            }
        }
        return None;
    }
    let third = scan_component(s, j + 1);
    if third.is_none() {
        proof {
            assert forall|v: Version| s@ != #[trigger] spec_version_text(v) by {
                if s@ == spec_version_text(v) {
                    lemma_text_structure(s@, v);
                    lemma_run_digits(s@, 0, i as int, major as nat);
                    lemma_run_end_unique(s@, 0, i as int, first_dot(v));
                    lemma_run_digits(s@, i + 1, j as int, minor as nat);
                    lemma_run_end_unique(s@, i + 1, j as int, second_dot(v));
                    assert(s@.subrange(second_dot(v) + 1, s@.len() as int) != spec_decimal(
                        v.patch as nat,
                    ));
                    assert(false);
                }
            }
        }
        return None;
    }
    let (patch, k) = third.unwrap();
    if k != len {
        proof {
            assert forall|v: Version| s@ != #[trigger] spec_version_text(v) by {
                if s@ == spec_version_text(v) {
                    lemma_text_structure(s@, v);
                    lemma_run_digits(s@, 0, i as int, major as nat);
                    lemma_run_end_unique(s@, 0, i as int, first_dot(v));
                    lemma_run_digits(s@, i + 1, j as int, minor as nat);
                    lemma_run_end_unique(s@, i + 1, j as int, second_dot(v));
                    lemma_run_digits(s@, j + 1, k as int, patch as nat);
                    lemma_run_end_unique(s@, j + 1, k as int, s@.len() as int);
                    assert(false);
                }
            }
        }
        return None;
    }
    let v = Version { major, minor, patch };
    proof {
        assert(seq![DOT] =~= s@.subrange(i as int, i + 1));
        assert(seq![DOT] =~= s@.subrange(j as int, j + 1));
        assert(s@ =~= s@.subrange(0, i as int) + s@.subrange(i as int, i + 1) + s@.subrange(
            i + 1,
            j as int,
        ) + s@.subrange(j as int, j + 1) + s@.subrange(j + 1, len as int));
        assert(s@ == spec_version_text(v));
    }
    Some(v)
}

/// The bump transition is deterministic and pure: identical inputs yield
/// identical outputs, and `spec_bump` fully determines the version `bump`
/// leaves behind, so a bump has no observable effect beyond that new value.
pub proof fn lemma_bump_deterministic(a: Version, b: Version, digit: Digit)
    requires
        a == b,
    ensures
        spec_bump(a, digit) == spec_bump(b, digit),
{
}

} // verus!
