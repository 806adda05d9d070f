//! The sort key attached to a table cell, and its comparator.
//!
//! A [`KeyType`] is the value a table column is ordered by, kept separate
//! from whatever the cell renders. The comparator is total: keys of the same
//! variant are ordered (strings lexicographically, integers in *reversed*
//! numeric order so that larger values sort first), and keys of different
//! variants always compare as equal.

use vstd::prelude::*;
use vstd::string::StrSliceExecFns;
use vstd::string::StringExecFns;
use core::cmp::Ordering;

verus! {

/// A sortable value extracted from a table cell: absent, text, a signed or
/// unsigned 128-bit integer, or a nested key standing in for a user-defined
/// comparable object (its sort key, extracted once at construction).
#[derive(Debug)]
pub enum KeyType {
    Absent,
    String(String),
    Integer(i128),
    UnsignedInteger(u128),
    Object(Box<KeyType>),
}

/// Strict lexicographic order on character sequences: a proper prefix comes
/// first, otherwise the first differing character (by code point) decides.
pub open spec fn seq_lt(a: Seq<char>, b: Seq<char>) -> bool
    decreases a.len(),
{
    if b.len() == 0 {
        false
    } else if a.len() == 0 {
        true
    } else if a[0] != b[0] {
        (a[0] as u32) < (b[0] as u32)
    } else {
        seq_lt(a.drop_first(), b.drop_first())
    }
}

/// Equality of keys: defined only between same-variant pairs; keys of
/// different variants are never equal.
pub open spec fn key_eq(a: KeyType, b: KeyType) -> bool
    decreases a,
{
    match (a, b) {
        (KeyType::Absent, KeyType::Absent) => true,
        (KeyType::String(x), KeyType::String(y)) => x@ == y@,
        (KeyType::Integer(x), KeyType::Integer(y)) => x == y,
        (KeyType::UnsignedInteger(x), KeyType::UnsignedInteger(y)) => x == y,
        (KeyType::Object(x), KeyType::Object(y)) => key_eq(*x, *y),
        _ => false,
    }
}

/// Strict order on keys. Strings are ordered lexicographically; integers are
/// ordered in reverse (the larger value comes first); object keys delegate to
/// the wrapped key. Keys of different variants are never strictly ordered, so
/// they compare as equal.
pub open spec fn key_lt(a: KeyType, b: KeyType) -> bool
    decreases a,
{
    match (a, b) {
        (KeyType::String(x), KeyType::String(y)) => seq_lt(x@, y@),
        (KeyType::Integer(x), KeyType::Integer(y)) => y < x,
        (KeyType::UnsignedInteger(x), KeyType::UnsignedInteger(y)) => y < x,
        (KeyType::Object(x), KeyType::Object(y)) => key_lt(*x, *y),
        _ => false,
    }
}

/// Non-strict order on keys: `a` is not strictly after `b`.
pub open spec fn key_le(a: KeyType, b: KeyType) -> bool {
    !key_lt(b, a)
}

/// Non-strict lexicographic order on character sequences.
pub open spec fn str_le(a: Seq<char>, b: Seq<char>) -> bool {
    !seq_lt(b, a)
}

/// Whether two keys are of the same variant, so that the comparator actually
/// orders them instead of folding them to equal.
pub open spec fn key_comparable(a: KeyType, b: KeyType) -> bool
    decreases a,
{
    match (a, b) {
        (KeyType::String(_), KeyType::String(_)) => true,
        (KeyType::Integer(_), KeyType::Integer(_)) => true,
        (KeyType::UnsignedInteger(_), KeyType::UnsignedInteger(_)) => true,
        (KeyType::Object(x), KeyType::Object(y)) => key_comparable(*x, *y),
        _ => false,
    }
}

/// The text of a string key.
pub open spec fn key_string(k: KeyType) -> Seq<char>
    recommends
        k is String,
{
    k->String_0@
}

/// The value of a signed integer key.
pub open spec fn key_int(k: KeyType) -> i128
    recommends
        k is Integer,
{
    k->Integer_0
}

/// The value of an unsigned integer key.
pub open spec fn key_uint(k: KeyType) -> u128
    recommends
        k is UnsignedInteger,
{
    k->UnsignedInteger_0
}

/// Distinct characters have distinct code points.
proof fn lemma_char_cast_injective(x: char, y: char)
    ensures
        (x as u32) == (y as u32) ==> x == y,
{
    vstd::utf8::char_u32_cast(x, x as u32);
    vstd::utf8::char_u32_cast(y, y as u32);
}

/// Lexicographic order is a strict total order: it is asymmetric, and two
/// sequences that are unordered both ways are equal.
pub proof fn lemma_seq_lt_trichotomy(a: Seq<char>, b: Seq<char>)
    ensures
        seq_lt(a, b) ==> !seq_lt(b, a),
        (!seq_lt(a, b) && !seq_lt(b, a)) <==> a == b,
    decreases a.len(),
{
    if b.len() == 0 {
        assert(!seq_lt(a, b));
        if a.len() == 0 {
            assert(a =~= b);
        } else {
            assert(seq_lt(b, a));
        }
    } else if a.len() == 0 {
        assert(seq_lt(a, b));
        assert(!seq_lt(b, a));
    } else if a[0] != b[0] {
        lemma_char_cast_injective(a[0], b[0]);
        if (a[0] as u32) < (b[0] as u32) {
            assert(seq_lt(a, b));
            assert(!seq_lt(b, a));
        } else {
            assert(seq_lt(b, a));
            assert(!seq_lt(a, b));
        }
    } else {
        lemma_seq_lt_trichotomy(a.drop_first(), b.drop_first());
        assert(seq_lt(a, b) == seq_lt(a.drop_first(), b.drop_first()));
        assert(seq_lt(b, a) == seq_lt(b.drop_first(), a.drop_first()));
        if !seq_lt(a, b) && !seq_lt(b, a) {
            assert(a.drop_first() == b.drop_first());
            assert forall|i: int| 0 <= i < a.len() implies a[i] == b[i] by {
                if i > 0 {
                    assert(a[i] == a.drop_first()[i - 1]);
                    assert(b[i] == b.drop_first()[i - 1]);
                }
            }
            assert(a =~= b);
        }
        if a == b {
            assert(a.drop_first() =~= b.drop_first());
        }
    }
}

/// Lexicographic order is transitive.
pub proof fn lemma_seq_lt_transitive(a: Seq<char>, b: Seq<char>, c: Seq<char>)
    requires
        seq_lt(a, b),
        seq_lt(b, c),
    ensures
        seq_lt(a, c),
    decreases a.len(),
{
    if a.len() > 0 && b.len() > 0 && c.len() > 0 && a[0] == b[0] && b[0] == c[0] {
        lemma_seq_lt_transitive(a.drop_first(), b.drop_first(), c.drop_first());
    }
}

/// Comparability of keys is symmetric.
pub proof fn lemma_key_comparable_sym(a: KeyType, b: KeyType)
    ensures
        key_comparable(a, b) == key_comparable(b, a),
    decreases a,
{
    if let (KeyType::Object(x), KeyType::Object(y)) = (a, b) {
        lemma_key_comparable_sym(*x, *y);
    }
}

/// The strict key order is asymmetric: no two keys are each strictly before
/// the other. In particular it is irreflexive, and `key_lt` implies `key_le`.
pub proof fn lemma_key_lt_asymmetric(a: KeyType, b: KeyType)
    ensures
        key_lt(a, b) ==> !key_lt(b, a),
    decreases a,
{
    match (a, b) {
        (KeyType::String(x), KeyType::String(y)) => {
            lemma_seq_lt_trichotomy(x@, y@);
        },
        (KeyType::Object(x), KeyType::Object(y)) => {
            lemma_key_lt_asymmetric(*x, *y);
        },
        _ => {},
    }
}

/// Two comparable keys that are unordered both ways are equal, and equal
/// keys are unordered: within one variant the comparator is a total order
/// modulo `key_eq`.
pub proof fn lemma_key_order_eq(a: KeyType, b: KeyType)
    ensures
        key_comparable(a, b) ==> ((!key_lt(a, b) && !key_lt(b, a)) <==> key_eq(a, b)),
    decreases a,
{
    match (a, b) {
        (KeyType::String(x), KeyType::String(y)) => {
            lemma_seq_lt_trichotomy(x@, y@);
        },
        (KeyType::Object(x), KeyType::Object(y)) => {
            lemma_key_order_eq(*x, *y);
        },
        _ => {},
    }
}

/// Equal keys order the same way against every third key.
pub proof fn lemma_key_eq_lt_congruence(a: KeyType, b: KeyType, c: KeyType)
    requires
        key_eq(a, b),
    ensures
        key_lt(a, c) == key_lt(b, c),
        key_lt(c, a) == key_lt(c, b),
    decreases a,
{
    if let (KeyType::Object(x), KeyType::Object(y)) = (a, b) {
        if let KeyType::Object(z) = c {
            lemma_key_eq_lt_congruence(*x, *y, *z);
        }
    }
}

/// The strict key order is transitive.
pub proof fn lemma_key_lt_transitive(a: KeyType, b: KeyType, c: KeyType)
    requires
        key_lt(a, b),
        key_lt(b, c),
    ensures
        key_lt(a, c),
    decreases a,
{
    match (a, b) {
        (KeyType::String(x), KeyType::String(y)) => {
            if let KeyType::String(z) = c {
                lemma_seq_lt_transitive(x@, y@, z@);
            }
        },
        (KeyType::Object(x), KeyType::Object(y)) => {
            if let KeyType::Object(z) = c {
                lemma_key_lt_transitive(*x, *y, *z);
            }
        },
        _ => {},
    }
}

/// A key strictly before another is strictly before everything that other
/// key is at or before.
pub proof fn lemma_key_lt_le_transitive(a: KeyType, b: KeyType, c: KeyType)
    requires
        key_comparable(b, c),
        key_lt(a, b),
        key_le(b, c),
    ensures
        key_lt(a, c),
{
    if key_lt(b, c) {
        lemma_key_lt_transitive(a, b, c);
    } else {
        lemma_key_order_eq(b, c);
        lemma_key_eq_lt_congruence(b, c, a);
    }
}

/// On comparable keys the non-strict order is transitive.
pub proof fn lemma_key_le_transitive(a: KeyType, b: KeyType, c: KeyType)
    requires
        key_comparable(a, b),
        key_comparable(b, c),
        key_le(a, b),
        key_le(b, c),
    ensures
        key_le(a, c),
    decreases a,
{
    match (a, b) {
        (KeyType::String(x), KeyType::String(y)) => {
            if let KeyType::String(z) = c {
                if seq_lt(z@, x@) {
                    if seq_lt(x@, y@) {
                        lemma_seq_lt_transitive(z@, x@, y@);
                    } else {
                        lemma_seq_lt_trichotomy(x@, y@);
                        assert(x@ == y@);
                        assert(seq_lt(z@, y@));
                    }
                }
            }
        },
        (KeyType::Object(x), KeyType::Object(y)) => {
            if let KeyType::Object(z) = c {
                lemma_key_le_transitive(*x, *y, *z);
            }
        },
        _ => {},
    }
}

/// Compares two string slices in lexicographic (code point) order.
fn str_compare(a: &str, b: &str) -> (r: Ordering)
    ensures
        r == Ordering::Less <==> seq_lt(a@, b@),
        r == Ordering::Greater <==> seq_lt(b@, a@),
        r == Ordering::Equal <==> a@ == b@,
{
    let a_len = a.unicode_len();
    let b_len = b.unicode_len();
    let mut i: usize = 0;
    proof {
        assert(a@.skip(0) =~= a@);
        assert(b@.skip(0) =~= b@);
    }
    while i < a_len && i < b_len
        invariant
            i <= a@.len(),
            i <= b@.len(),
            a_len == a@.len(),
            b_len == b@.len(),
            forall|j: int| 0 <= j < i ==> a@[j] == b@[j],
            seq_lt(a@, b@) == seq_lt(a@.skip(i as int), b@.skip(i as int)),
            seq_lt(b@, a@) == seq_lt(b@.skip(i as int), a@.skip(i as int)),
        decreases a@.len() - i,
    {
        let ca = a.get_char(i);
        let cb = b.get_char(i);
        if ca as u32 != cb as u32 {
            if (ca as u32) < (cb as u32) {
                return Ordering::Less;
            } else {
                return Ordering::Greater;
            }
        }
        proof {
            lemma_char_cast_injective(ca, cb);
            assert(a@.skip(i as int).drop_first() =~= a@.skip(i + 1));
            assert(b@.skip(i as int).drop_first() =~= b@.skip(i + 1));
        }
        i = i + 1;
    }
    if a_len == b_len {
        proof {
            assert(a@ =~= b@);
            lemma_seq_lt_trichotomy(a@, b@);
        }
        Ordering::Equal
    } else if a_len < b_len {
        proof {
            assert(a@.skip(i as int).len() == 0);
            assert(b@.skip(i as int).len() > 0);
        }
        Ordering::Less
    } else {
        proof {
            assert(b@.skip(i as int).len() == 0);
            assert(a@.skip(i as int).len() > 0);
        }
        Ordering::Greater
    }
}

/// Structure-level equality test behind `KeyType`'s `PartialEq`.
fn key_eq_exec(a: &KeyType, b: &KeyType) -> (r: bool)
    ensures
        r == key_eq(*a, *b),
    decreases *a,
{
    match (a, b) {
        (KeyType::Absent, KeyType::Absent) => true,
        (KeyType::String(x), KeyType::String(y)) => *x == *y,
        (KeyType::Integer(x), KeyType::Integer(y)) => *x == *y,
        (KeyType::UnsignedInteger(x), KeyType::UnsignedInteger(y)) => *x == *y,
        (KeyType::Object(x), KeyType::Object(y)) => key_eq_exec(&**x, &**y),
        _ => false,
    }
}

impl KeyType {
    /// Total comparison of two keys, as used by the table's sort: `Less`
    /// means `self` comes first. Keys of different variants (and `Absent`
    /// pairs) compare as `Equal`.
    pub fn compare(&self, other: &KeyType) -> (r: Ordering)
        ensures
            (r == Ordering::Less) <==> key_lt(*self, *other),
            (r == Ordering::Greater) <==> key_lt(*other, *self),
            (r == Ordering::Equal) <==> (!key_lt(*self, *other) && !key_lt(*other, *self)),
        decreases *self,
    {
        match (self, other) {
            (KeyType::String(x), KeyType::String(y)) => str_compare(x.as_str(), y.as_str()),
            (KeyType::Integer(x), KeyType::Integer(y)) => {
                if *y < *x {
                    Ordering::Less
                } else if *x < *y {
                    Ordering::Greater
                } else {
                    Ordering::Equal
                }
            },
            (KeyType::UnsignedInteger(x), KeyType::UnsignedInteger(y)) => {
                if *y < *x {
                    Ordering::Less
                } else if *x < *y {
                    Ordering::Greater
                } else {
                    Ordering::Equal
                }
            },
            (KeyType::Object(x), KeyType::Object(y)) => (&**x).compare(&**y),
            _ => Ordering::Equal,
        }
    }
}

impl Clone for KeyType {
    /// A clone is equal to the original, nested object keys included.
    fn clone(&self) -> (r: Self)
        ensures
            r == *self,
        decreases *self,
    {
        match self {
            KeyType::Absent => KeyType::Absent,
            KeyType::String(s) => KeyType::String(s.clone()),
            KeyType::Integer(n) => KeyType::Integer(*n),
            KeyType::UnsignedInteger(n) => KeyType::UnsignedInteger(*n),
            KeyType::Object(b) => KeyType::Object(Box::new((&**b).clone())),
        }
    }
}

/// The character for one decimal digit.
pub open spec fn digit_char(d: nat) -> char
    recommends
        d < 10,
{
    if d == 0 {
        '0'
    } else if d == 1 {
        '1'
    } else if d == 2 {
        '2'
    } else if d == 3 {
        '3'
    } else if d == 4 {
        '4'
    } else if d == 5 {
        '5'
    } else if d == 6 {
        '6'
    } else if d == 7 {
        '7'
    } else if d == 8 {
        '8'
    } else {
        '9'
    }
}

/// The decimal digits of `n`, most significant first.
pub open spec fn dec_digits(n: nat) -> Seq<char>
    decreases n,
{
    if n < 10 {
        seq![digit_char(n)]
    } else {
        dec_digits(n / 10).push(digit_char(n % 10))
    }
}

/// The decimal rendering of a signed value: a minus sign before the digits
/// of the magnitude when negative.
pub open spec fn int_dec(n: int) -> Seq<char> {
    if n < 0 {
        seq!['-'] + dec_digits((-n) as nat)
    } else {
        dec_digits(n as nat)
    }
}

/// The text a key displays as: "None" for an absent key, the text of a
/// string key, the decimal rendering of an integer key, and the wrapped
/// key's text for an object key.
pub open spec fn key_display(k: KeyType) -> Seq<char>
    decreases k,
{
    match k {
        KeyType::Absent => seq!['N', 'o', 'n', 'e'],
        KeyType::String(s) => s@,
        KeyType::Integer(n) => int_dec(n as int),
        KeyType::UnsignedInteger(n) => dec_digits(n as nat),
        KeyType::Object(b) => key_display(*b),
    }
}

/// Appends the decimal digits of `n` to `s`.
fn push_dec_u128(s: &mut String, n: u128)
    ensures
        final(s)@ == old(s)@ + dec_digits(n as nat),
    decreases n,
{
    if n >= 10 {
        push_dec_u128(s, n / 10);
    }
    let d = n % 10;
    if d == 0 {
        s.append("0");
    } else if d == 1 {
        s.append("1");
    } else if d == 2 {
        s.append("2");
    } else if d == 3 {
        s.append("3");
    } else if d == 4 {
        s.append("4");
    } else if d == 5 {
        s.append("5");
    } else if d == 6 {
        s.append("6");
    } else if d == 7 {
        s.append("7");
    } else if d == 8 {
        s.append("8");
    } else {
        s.append("9");
    }
    proof {
        reveal_strlit("0");
        reveal_strlit("1");
        reveal_strlit("2");
        reveal_strlit("3");
        reveal_strlit("4");
        reveal_strlit("5");
        reveal_strlit("6");
        reveal_strlit("7");
        reveal_strlit("8");
        reveal_strlit("9");
        if n >= 10 {
            assert(dec_digits(n as nat) =~= dec_digits((n as nat) / 10) + seq![
                digit_char((n as nat) % 10),
            ]);
        }
        assert(final(s)@ =~= old(s)@ + dec_digits(n as nat));
    }
}

impl KeyType {
    /// The text shown for this key: "None" when absent, the string itself,
    /// the decimal integer (in the key's natural, unreversed rendering), or
    /// the object's own key text.
    pub fn display_string(&self) -> (r: String)
        ensures
            r@ == key_display(*self),
        decreases *self,
    {
        match self {
            KeyType::Absent => {
                let mut s = String::new();
                s.append("None");
                proof {
                    reveal_strlit("None");
                    assert(s@ =~= seq!['N', 'o', 'n', 'e']);
                }
                s
            },
            KeyType::String(x) => x.clone(),
            KeyType::Integer(n) => {
                let mut s = String::new();
                if *n < 0 {
                    s.append("-");
                    let mag: u128 = ((-(*n + 1)) as u128) + 1;
                    push_dec_u128(&mut s, mag);
                    proof {
                        reveal_strlit("-");
                        assert(mag as nat == (-(*n as int)) as nat);
                        assert(s@ =~= int_dec(*n as int));
                    }
                } else {
                    push_dec_u128(&mut s, *n as u128);
                    proof {
                        assert(s@ =~= int_dec(*n as int));
                    }
                }
                s
            },
            KeyType::UnsignedInteger(n) => {
                let mut s = String::new();
                push_dec_u128(&mut s, *n);
                proof {
                    assert(s@ =~= dec_digits(*n as nat));
                }
                s
            },
            KeyType::Object(b) => (&**b).display_string(),
        }
    }
}

impl PartialEq for KeyType {
    fn eq(&self, other: &Self) -> (r: bool) {
        key_eq_exec(self, other)
    }
}

impl Eq for KeyType {}

impl vstd::std_specs::cmp::PartialEqSpecImpl for KeyType {
    open spec fn obeys_eq_spec() -> bool {
        true
    }

    open spec fn eq_spec(&self, other: &Self) -> bool {
        key_eq(*self, *other)
    }
}

impl PartialOrd for KeyType {
    fn partial_cmp(&self, other: &Self) -> (r: Option<Ordering>) {
        Some(self.compare(other))
    }
}

impl vstd::std_specs::cmp::PartialOrdSpecImpl for KeyType {
    open spec fn obeys_partial_cmp_spec() -> bool {
        true
    }

    open spec fn partial_cmp_spec(&self, other: &Self) -> Option<Ordering> {
        if key_lt(*self, *other) {
            Some(Ordering::Less)
        } else if key_lt(*other, *self) {
            Some(Ordering::Greater)
        } else {
            Some(Ordering::Equal)
        }
    }
}

impl From<String> for KeyType {
    fn from(v: String) -> (r: Self) {
        KeyType::String(v)
    }
}

impl vstd::std_specs::convert::FromSpecImpl<String> for KeyType {
    open spec fn obeys_from_spec() -> bool {
        true
    }

    open spec fn from_spec(v: String) -> KeyType {
        KeyType::String(v)
    }
}

impl<'a> From<&'a str> for KeyType {
    /// Becomes a string key with the same text.
    fn from(v: &'a str) -> (r: Self)
        ensures
            r matches KeyType::String(s) && s@ == v@,
    {
        KeyType::String(v.to_owned())
    }
}

impl<'a> vstd::std_specs::convert::FromSpecImpl<&'a str> for KeyType {
    open spec fn obeys_from_spec() -> bool {
        false
    }

    open spec fn from_spec(v: &'a str) -> KeyType {
        KeyType::Absent
    }
}

impl From<i128> for KeyType {
    fn from(v: i128) -> (r: Self) {
        KeyType::Integer(v)
    }
}

impl vstd::std_specs::convert::FromSpecImpl<i128> for KeyType {
    open spec fn obeys_from_spec() -> bool {
        true
    }

    open spec fn from_spec(v: i128) -> KeyType {
        KeyType::Integer(v)
    }
}

impl From<u128> for KeyType {
    fn from(v: u128) -> (r: Self) {
        KeyType::UnsignedInteger(v)
    }
}

impl vstd::std_specs::convert::FromSpecImpl<u128> for KeyType {
    open spec fn obeys_from_spec() -> bool {
        true
    }

    open spec fn from_spec(v: u128) -> KeyType {
        KeyType::UnsignedInteger(v)
    }
}

impl From<i64> for KeyType {
    fn from(v: i64) -> (r: Self) {
        KeyType::Integer(v as i128)
    }
}

impl vstd::std_specs::convert::FromSpecImpl<i64> for KeyType {
    open spec fn obeys_from_spec() -> bool {
        true
    }

    open spec fn from_spec(v: i64) -> KeyType {
        KeyType::Integer(v as i128)
    }
}

impl From<u64> for KeyType {
    fn from(v: u64) -> (r: Self) {
        KeyType::UnsignedInteger(v as u128)
    }
}

impl vstd::std_specs::convert::FromSpecImpl<u64> for KeyType {
    open spec fn obeys_from_spec() -> bool {
        true
    }

    open spec fn from_spec(v: u64) -> KeyType {
        KeyType::UnsignedInteger(v as u128)
    }
}

impl From<i32> for KeyType {
    fn from(v: i32) -> (r: Self) {
        KeyType::Integer(v as i128)
    }
}

impl vstd::std_specs::convert::FromSpecImpl<i32> for KeyType {
    open spec fn obeys_from_spec() -> bool {
        true
    }

    open spec fn from_spec(v: i32) -> KeyType {
        KeyType::Integer(v as i128)
    }
}

impl From<u32> for KeyType {
    fn from(v: u32) -> (r: Self) {
        KeyType::UnsignedInteger(v as u128)
    }
}

impl vstd::std_specs::convert::FromSpecImpl<u32> for KeyType {
    open spec fn obeys_from_spec() -> bool {
        true
    }

    open spec fn from_spec(v: u32) -> KeyType {
        KeyType::UnsignedInteger(v as u128)
    }
}

impl From<i16> for KeyType {
    fn from(v: i16) -> (r: Self) {
        KeyType::Integer(v as i128)
    }
}

impl vstd::std_specs::convert::FromSpecImpl<i16> for KeyType {
    open spec fn obeys_from_spec() -> bool {
        true
    }

    open spec fn from_spec(v: i16) -> KeyType {
        KeyType::Integer(v as i128)
    }
}

impl From<u16> for KeyType {
    fn from(v: u16) -> (r: Self) {
        KeyType::UnsignedInteger(v as u128)
    }
}

impl vstd::std_specs::convert::FromSpecImpl<u16> for KeyType {
    open spec fn obeys_from_spec() -> bool {
        true
    }

    open spec fn from_spec(v: u16) -> KeyType {
        KeyType::UnsignedInteger(v as u128)
    }
}

impl From<i8> for KeyType {
    fn from(v: i8) -> (r: Self) {
        KeyType::Integer(v as i128)
    }
}

impl vstd::std_specs::convert::FromSpecImpl<i8> for KeyType {
    open spec fn obeys_from_spec() -> bool {
        true
    }

    open spec fn from_spec(v: i8) -> KeyType {
        KeyType::Integer(v as i128)
    }
}

impl From<u8> for KeyType {
    fn from(v: u8) -> (r: Self) {
        KeyType::UnsignedInteger(v as u128)
    }
}

impl vstd::std_specs::convert::FromSpecImpl<u8> for KeyType {
    open spec fn obeys_from_spec() -> bool {
        true
    }

    open spec fn from_spec(v: u8) -> KeyType {
        KeyType::UnsignedInteger(v as u128)
    }
}

} // verus!
