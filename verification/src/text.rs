//! Text as the store reads it: equality, order, blankness, decimal and
//! hexadecimal rendering, and lists of identifiers.

use vstd::prelude::*;
use vstd::string::*;

verus! {

/// `<str as PartialEq>::eq` compares two strings byte by byte. UTF-8 gives
/// every sequence of characters bytes of its own, so equal bytes are equal
/// characters.
pub assume_specification[ <str as PartialEq>::eq ](s: &str, other: &str) -> (res: bool)
    ensures
        res == (s@ == other@),
;

/// The characters with the Unicode property `White_Space`.
pub open spec fn white_space(c: char) -> bool {
    ||| '\u{9}' <= c <= '\u{d}'
    ||| c == '\u{20}'
    ||| c == '\u{85}'
    ||| c == '\u{a0}'
    ||| c == '\u{1680}'
    ||| '\u{2000}' <= c <= '\u{200a}'
    ||| c == '\u{2028}'
    ||| c == '\u{2029}'
    ||| c == '\u{202f}'
    ||| c == '\u{205f}'
    ||| c == '\u{3000}'
}

/// A text is blank when nothing but white space stands in it.
pub open spec fn blank(text: Seq<char>) -> bool {
    forall|i: int| 0 <= i < text.len() ==> white_space(#[trigger] text[i])
}

fn is_white_space(c: char) -> (b: bool)
    ensures
        b == white_space(c),
{
    ('\u{9}' <= c && c <= '\u{d}') || c == '\u{20}' || c == '\u{85}' || c == '\u{a0}' || c
        == '\u{1680}' || ('\u{2000}' <= c && c <= '\u{200a}') || c == '\u{2028}' || c == '\u{2029}'
        || c == '\u{202f}' || c == '\u{205f}' || c == '\u{3000}'
}

/// Whether nothing is left of `text` once surrounding white space is removed.
pub fn is_blank(text: &str) -> (b: bool)
    ensures
        b == blank(text@),
{
    for c in it: text.chars()
        invariant
            it.seq() == text@,
            forall|i: int| 0 <= i < it.index() ==> white_space(#[trigger] text@[i]),
    {
        assert(c == text@[it.index()]);
        if !is_white_space(c) {
            return false;
        }
    }
    true
}

/// Whether two texts hold the same characters.
pub fn same_text(a: &str, b: &str) -> (r: bool)
    ensures
        r == (a@ == b@),
{
    *a == *b
}

/// How `std` shows a string for debugging: in double quotes, with escapes.
pub uninterp spec fn debug_text(text: Seq<char>) -> Seq<char>;

/// The `Debug` form of a string, which `std` computes from the string alone.
#[verifier::external_body]
pub(crate) fn quoted(text: &str) -> (r: String)
    ensures
        r@ == debug_text(text@),
{
    format!("{:?}", text)
}

/// The text of an optional string.
pub open spec fn optional_text(value: Option<String>) -> Option<Seq<char>> {
    match value {
        Some(text) => Some(text@),
        None => None,
    }
}

/// Whether two optional texts are both absent or both present and equal.
pub fn same_optional(a: &Option<String>, b: &Option<String>) -> (r: bool)
    ensures
        r == (optional_text(*a) == optional_text(*b)),
{
    match (a, b) {
        (Some(a), Some(b)) => same_text(a.as_str(), b.as_str()),
        (None, None) => true,
        _ => false,
    }
}

/// Whether an optional text is present and equal to `text`.
pub fn optional_is(a: &Option<String>, text: &str) -> (r: bool)
    ensures
        r == (optional_text(*a) == Some(text@)),
{
    match a {
        Some(a) => same_text(a.as_str(), text),
        None => false,
    }
}

/// Whether an optional text is present and blank.
pub fn optional_is_blank(a: &Option<String>) -> (r: bool)
    ensures
        r == (a is Some && blank(a->0@)),
{
    match a {
        Some(a) => is_blank(a.as_str()),
        None => false,
    }
}

/// A copy of an optional string.
pub fn copy_optional(a: &Option<String>) -> (r: Option<String>)
    ensures
        r == *a,
{
    match a {
        Some(text) => Some(text.clone()),
        None => None,
    }
}

/// Copies two texts into one string, one after the other.
pub fn join2(a: &str, b: &str) -> (r: String)
    ensures
        r@ == a@ + b@,
{
    let mut out = a.to_owned();
    out.append(b);
    out
}

/// Copies three texts into one string, one after the other.
pub fn join3(a: &str, b: &str, c: &str) -> (r: String)
    ensures
        r@ == a@ + b@ + c@,
{
    let mut out = join2(a, b);
    out.append(c);
    out
}

/// Copies four texts into one string, one after the other.
pub fn join4(a: &str, b: &str, c: &str, d: &str) -> (r: String)
    ensures
        r@ == a@ + b@ + c@ + d@,
{
    let mut out = join3(a, b, c);
    out.append(d);
    out
}

/// Copies five texts into one string, one after the other.
pub fn join5(a: &str, b: &str, c: &str, d: &str, e: &str) -> (r: String)
    ensures
        r@ == a@ + b@ + c@ + d@ + e@,
{
    let mut out = join4(a, b, c, d);
    out.append(e);
    out
}

/// The decimal digit of `d`, for `d` below ten.
pub open spec fn digit(d: nat) -> char {
    if d == 0 {
        '0'
    } else if d == 1 {
        '1'
    } else if d == 2 {
        '2'
    } else if d == 3 {
        '3'
    } else if d == 4 {
        '4'
    } else if d == 5 {
        '5'
    } else if d == 6 {
        '6'
    } else if d == 7 {
        '7'
    } else if d == 8 {
        '8'
    } else {
        '9'
    }
}

/// The decimal numeral of `n`, without leading zeros.
pub open spec fn decimal(n: nat) -> Seq<char>
    decreases n,
{
    if n < 10 {
        seq![digit(n)]
    } else {
        decimal(n / 10).push(digit(n % 10))
    }
}

/// Numerals are made of digits.
pub proof fn decimal_is_digits(n: nat)
    ensures
        decimal(n).len() > 0,
        forall|i: int| 0 <= i < decimal(n).len() ==> '0' <= #[trigger] decimal(n)[i] <= '9',
    decreases n,
{
    if n >= 10 {
        decimal_is_digits(n / 10);
    }
}

/// Different numbers have different numerals.
pub proof fn decimal_injective(n: nat, m: nat)
    requires
        decimal(n) == decimal(m),
    ensures
        n == m,
    decreases n,
{
    decimal_is_digits(n / 10);
    decimal_is_digits(m / 10);
    assert(decimal(n).last() == digit(n % 10));
    assert(decimal(m).last() == digit(m % 10));
    assert(n >= 10 ==> decimal(n).len() > 1);
    assert(m >= 10 ==> decimal(m).len() > 1);
    if n >= 10 && m >= 10 {
        assert(decimal(n).drop_last() =~= decimal(n / 10));
        assert(decimal(m).drop_last() =~= decimal(m / 10));
        decimal_injective(n / 10, m / 10);
    }
}

/// The decimal numeral of `n`, with a minus sign in front where `n` is negative.
pub open spec fn signed_decimal(n: int) -> Seq<char> {
    if n < 0 {
        seq!['-'] + decimal((-n) as nat)
    } else {
        decimal(n as nat)
    }
}

fn append_digit(out: &mut String, d: u64)
    requires
        d < 10,
    ensures
        final(out)@ == old(out)@.push(digit(d as nat)),
{
    proof {
        reveal_strlit("0");
        reveal_strlit("1");
        reveal_strlit("2");
        reveal_strlit("3");
        reveal_strlit("4");
        reveal_strlit("5");
        reveal_strlit("6");
        reveal_strlit("7");
        reveal_strlit("8");
        reveal_strlit("9");
    }
    let digit = if d == 0 {
        "0"
    } else if d == 1 {
        "1"
    } else if d == 2 {
        "2"
    } else if d == 3 {
        "3"
    } else if d == 4 {
        "4"
    } else if d == 5 {
        "5"
    } else if d == 6 {
        "6"
    } else if d == 7 {
        "7"
    } else if d == 8 {
        "8"
    } else {
        "9"
    };
    out.append(digit);
    assert(digit@ =~= seq![crate::text::digit(d as nat)]);
    assert(out@ =~= old(out)@.push(crate::text::digit(d as nat)));
}

/// Appends the decimal numeral of `n` to `out`.
pub fn append_decimal(out: &mut String, n: u64)
    ensures
        final(out)@ == old(out)@ + decimal(n as nat),
    decreases n,
{
    if n >= 10 {
        append_decimal(out, n / 10);
    }
    append_digit(out, n % 10);
    assert(out@ =~= old(out)@ + decimal(n as nat));
}

/// The decimal numeral of an unsigned integer.
pub fn decimal_text(n: u64) -> (r: String)
    ensures
        r@ == decimal(n as nat),
{
    let mut out = String::new();
    append_decimal(&mut out, n);
    assert(out@ =~= decimal(n as nat));
    out
}

/// The decimal numeral of a signed integer.
pub fn signed_decimal_text(n: i64) -> (r: String)
    ensures
        r@ == signed_decimal(n as int),
{
    if n < 0 {
        proof {
            reveal_strlit("-");
        }
        let mut out = "-".to_owned();
        let magnitude: u64 = if n == i64::MIN {
            9223372036854775808
        } else {
            (-n) as u64
        };
        append_decimal(&mut out, magnitude);
        assert(out@ =~= signed_decimal(n as int));
        out
    } else {
        decimal_text(n as u64)
    }
}

/// The characters of a text, one by one.
pub fn characters(text: &str) -> (r: Vec<char>)
    ensures
        r@ == text@,
{
    let mut out: Vec<char> = Vec::new();
    for c in it: text.chars()
        invariant
            it.seq() == text@,
            out@ == text@.take(it.index()),
    {
        assert(c == text@[it.index()]);
        out.push(c);
        assert(out@ =~= text@.take(it.index() + 1));
    }
    assert(out@ =~= text@);
    out
}

/// `a` agrees with `b` before position `n`, and ends there or has the smaller
/// character there.
pub open spec fn precedes_at(a: Seq<char>, b: Seq<char>, n: int) -> bool {
    &&& 0 <= n <= a.len()
    &&& n < b.len()
    &&& forall|j: int| 0 <= j < n ==> a[j] == b[j]
    &&& n == a.len() || a[n] < b[n]
}

/// The order of texts: lexicographic, by code point.
pub open spec fn precedes(a: Seq<char>, b: Seq<char>) -> bool {
    exists|n: int| precedes_at(a, b, n)
}

/// No text precedes itself.
pub proof fn precedes_irreflexive(a: Seq<char>)
    ensures
        !precedes(a, a),
{
}

/// The order of texts is transitive.
pub proof fn precedes_transitive(a: Seq<char>, b: Seq<char>, c: Seq<char>)
    requires
        precedes(a, b),
        precedes(b, c),
    ensures
        precedes(a, c),
{
    let n = choose|n: int| precedes_at(a, b, n);
    let m = choose|m: int| precedes_at(b, c, m);
    let k = if n <= m {
        n
    } else {
        m
    };
    assert(precedes_at(a, c, k));
}

proof fn first_difference(a: Seq<char>, b: Seq<char>, from: int) -> (n: int)
    requires
        0 <= from <= a.len(),
        from <= b.len(),
        forall|j: int| 0 <= j < from ==> a[j] == b[j],
    ensures
        from <= n <= a.len(),
        n <= b.len(),
        forall|j: int| 0 <= j < n ==> a[j] == b[j],
        n == a.len() || n == b.len() || a[n] != b[n],
    decreases a.len() - from,
{
    if from == a.len() || from == b.len() || a[from] != b[from] {
        from
    } else {
        first_difference(a, b, from + 1)
    }
}

/// Of two different texts one precedes the other.
pub proof fn precedes_total(a: Seq<char>, b: Seq<char>)
    requires
        a != b,
    ensures
        precedes(a, b) || precedes(b, a),
{
    let n = first_difference(a, b, 0);
    if n == a.len() && n == b.len() {
        assert(a =~= b);
    } else if n < b.len() && (n == a.len() || a[n] < b[n]) {
        assert(precedes_at(a, b, n));
    } else {
        assert(precedes_at(b, a, n));
    }
}

/// No two texts precede each other.
pub proof fn precedes_asymmetric(a: Seq<char>, b: Seq<char>)
    requires
        precedes(a, b),
    ensures
        !precedes(b, a),
        a != b,
{
    if precedes(b, a) {
        precedes_transitive(a, b, a);
    }
    precedes_irreflexive(a);
}

/// Whether `a` comes before `b` in the order of texts.
pub fn text_precedes(a: &str, b: &str) -> (r: bool)
    ensures
        r == precedes(a@, b@),
{
    let left = characters(a);
    let right = characters(b);
    let mut i: usize = 0;
    while i < left.len() && i < right.len()
        invariant
            left@ == a@,
            right@ == b@,
            i <= left.len(),
            i <= right.len(),
            forall|j: int| 0 <= j < i ==> a@[j] == b@[j],
        decreases left.len() - i,
    {
        if left[i] != right[i] {
            let less = left[i] < right[i];
            proof {
                if less {
                    assert(precedes_at(a@, b@, i as int));
                } else {
                    assert(precedes_at(b@, a@, i as int));
                    precedes_asymmetric(b@, a@);
                }
            }
            return less;
        }
        i = i + 1;
    }
    let shorter = i < right.len();
    proof {
        if shorter {
            assert(precedes_at(a@, b@, i as int));
        } else if i < left.len() {
            assert(precedes_at(b@, a@, i as int));
            precedes_asymmetric(b@, a@);
        } else {
            assert(a@ =~= b@);
        }
    }
    shorter
}

/// `text` begins with `prefix`.
pub open spec fn begins_with(text: Seq<char>, prefix: Seq<char>) -> bool {
    prefix.len() <= text.len() && text.take(prefix.len() as int) == prefix
}

/// Whether `text` begins with `prefix`.
pub fn text_begins_with(text: &str, prefix: &str) -> (r: bool)
    ensures
        r == begins_with(text@, prefix@),
{
    let whole = characters(text);
    let head = characters(prefix);
    if head.len() > whole.len() {
        return false;
    }
    let mut i: usize = 0;
    while i < head.len()
        invariant
            whole@ == text@,
            head@ == prefix@,
            i <= head.len() <= whole.len(),
            forall|j: int| 0 <= j < i ==> text@[j] == prefix@[j],
        decreases head.len() - i,
    {
        if whole[i] != head[i] {
            assert(text@.take(prefix@.len() as int)[i as int] != prefix@[i as int]);
            return false;
        }
        i = i + 1;
    }
    assert(text@.take(prefix@.len() as int) =~= prefix@);
    true
}

/// A lowercase hexadecimal digit.
pub open spec fn lower_hex_digit(c: char) -> bool {
    ('0' <= c && c <= '9') || ('a' <= c && c <= 'f')
}

/// A SHA-256 digest in text: 64 lowercase hexadecimal digits.
pub open spec fn lower_hex_64(text: Seq<char>) -> bool {
    text.len() == 64 && forall|i: int| 0 <= i < 64 ==> lower_hex_digit(#[trigger] text[i])
}

/// Whether `value` is 64 lowercase hexadecimal digits.
pub fn is_lower_hex_64(value: &str) -> (r: bool)
    ensures
        r == lower_hex_64(value@),
{
    let chars = characters(value);
    if chars.len() != 64 {
        return false;
    }
    let mut i: usize = 0;
    while i < 64
        invariant
            chars@ == value@,
            chars.len() == 64,
            i <= 64,
            forall|j: int| 0 <= j < i ==> lower_hex_digit(#[trigger] value@[j]),
        decreases 64 - i,
    {
        let c = chars[i];
        if !(('0' <= c && c <= '9') || ('a' <= c && c <= 'f')) {
            assert(!lower_hex_digit(value@[i as int]));
            return false;
        }
        i = i + 1;
    }
    true
}

/// The texts of a list of strings.
pub open spec fn texts(list: Seq<String>) -> Seq<Seq<char>> {
    Seq::new(list.len(), |i: int| list[i]@)
}

/// Every text of the list comes before all texts behind it. So the list is
/// sorted, and nothing occurs in it twice.
pub open spec fn strictly_sorted(list: Seq<Seq<char>>) -> bool {
    forall|i: int, j: int| 0 <= i < j < list.len() ==> precedes(#[trigger] list[i], #[trigger] list[j])
}

/// No text of the list is blank.
pub open spec fn none_blank(list: Seq<Seq<char>>) -> bool {
    forall|i: int| 0 <= i < list.len() ==> !blank(#[trigger] list[i])
}

/// Nothing occurs twice in a strictly sorted list.
pub proof fn strictly_sorted_has_no_duplicates(list: Seq<Seq<char>>)
    requires
        strictly_sorted(list),
    ensures
        list.no_duplicates(),
{
    assert forall|i: int, j: int| 0 <= i < list.len() && 0 <= j < list.len() && i != j implies list[i]
        != list[j] by {
        if i < j {
            precedes_asymmetric(list[i], list[j]);
        } else {
            precedes_asymmetric(list[j], list[i]);
        }
    }
}

/// Extends strict order by one text that comes after the last.
pub proof fn strictly_sorted_step(list: Seq<Seq<char>>, n: int)
    requires
        0 < n < list.len(),
        strictly_sorted(list.take(n)),
        precedes(list[n - 1], list[n]),
    ensures
        strictly_sorted(list.take(n + 1)),
{
    let longer = list.take(n + 1);
    assert forall|i: int, j: int| 0 <= i < j < longer.len() implies precedes(
        #[trigger] longer[i],
        #[trigger] longer[j],
    ) by {
        if j < n {
            assert(list.take(n)[i] == longer[i]);
            assert(list.take(n)[j] == longer[j]);
        } else if i < n - 1 {
            assert(precedes(list.take(n)[i], list.take(n)[n - 1]));
            precedes_transitive(longer[i], list[n - 1], longer[j]);
        }
    }
}

/// Whether the list is sorted without repetition.
pub fn strictly_sorted_unique(values: &Vec<String>) -> (r: bool)
    ensures
        r == strictly_sorted(texts(values@)),
{
    let ghost all = texts(values@);
    let mut i: usize = 1;
    if values.len() == 0 {
        return true;
    }
    while i < values.len()
        invariant
            all == texts(values@),
            1 <= i <= values.len(),
            strictly_sorted(all.take(i as int)),
        decreases values.len() - i,
    {
        if !text_precedes(values[i - 1].as_str(), values[i].as_str()) {
            assert(!precedes(all[i - 1], all[i as int]));
            return false;
        }
        proof {
            strictly_sorted_step(all, i as int);
        }
        i = i + 1;
    }
    assert(all.take(i as int) =~= all);
    true
}

/// Whether some text of the list is blank.
pub fn any_blank(values: &Vec<String>) -> (r: bool)
    ensures
        r == !none_blank(texts(values@)),
{
    let ghost all = texts(values@);
    let mut i: usize = 0;
    while i < values.len()
        invariant
            all == texts(values@),
            i <= values.len(),
            forall|j: int| 0 <= j < i ==> !blank(#[trigger] all[j]),
        decreases values.len() - i,
    {
        if is_blank(values[i].as_str()) {
            assert(blank(all[i as int]));
            return true;
        }
        i = i + 1;
    }
    false
}

/// Whether `item` occurs in the list.
pub fn list_contains(values: &Vec<String>, item: &str) -> (r: bool)
    ensures
        r == texts(values@).contains(item@),
{
    let ghost all = texts(values@);
    let mut i: usize = 0;
    while i < values.len()
        invariant
            all == texts(values@),
            i <= values.len(),
            forall|j: int| 0 <= j < i ==> all[j] != item@,
        decreases values.len() - i,
    {
        if same_text(values[i].as_str(), item) {
            assert(all[i as int] == item@);
            return true;
        }
        i = i + 1;
    }
    false
}

/// Every text of `part` occurs in `whole`.
pub open spec fn all_within(part: Seq<Seq<char>>, whole: Seq<Seq<char>>) -> bool {
    forall|i: int| 0 <= i < part.len() ==> whole.contains(#[trigger] part[i])
}

/// Whether every text of `part` occurs in `whole`.
pub fn list_within(part: &Vec<String>, whole: &Vec<String>) -> (r: bool)
    ensures
        r == all_within(texts(part@), texts(whole@)),
{
    let ghost all = texts(part@);
    let mut i: usize = 0;
    while i < part.len()
        invariant
            all == texts(part@),
            i <= part.len(),
            forall|j: int| 0 <= j < i ==> texts(whole@).contains(#[trigger] all[j]),
        decreases part.len() - i,
    {
        if !list_contains(whole, part[i].as_str()) {
            assert(!texts(whole@).contains(all[i as int]));
            return false;
        }
        i = i + 1;
    }
    true
}

/// Whether two lists hold the same texts in the same order.
pub fn same_list(a: &Vec<String>, b: &Vec<String>) -> (r: bool)
    ensures
        r == (texts(a@) == texts(b@)),
{
    if a.len() != b.len() {
        assert(texts(a@).len() != texts(b@).len());
        return false;
    }
    let mut i: usize = 0;
    while i < a.len()
        invariant
            i <= a.len() == b.len(),
            forall|j: int| 0 <= j < i ==> a@[j]@ == b@[j]@,
        decreases a.len() - i,
    {
        if !same_text(a[i].as_str(), b[i].as_str()) {
            assert(texts(a@)[i as int] != texts(b@)[i as int]);
            return false;
        }
        i = i + 1;
    }
    assert(texts(a@) =~= texts(b@));
    true
}

/// The place at which a text first stands in a list; the length of the list
/// where it does not.
pub open spec fn first_index(keys: Seq<Seq<char>>, key: Seq<char>) -> nat
    decreases keys.len(),
{
    if keys.len() == 0 || keys[0] == key {
        0
    } else {
        1 + first_index(keys.drop_first(), key)
    }
}

/// A place at which a text stands, and before which it does not, is the first.
pub proof fn first_index_is(keys: Seq<Seq<char>>, key: Seq<char>, at: int)
    requires
        0 <= at <= keys.len(),
        forall|i: int| 0 <= i < at ==> keys[i] != key,
        at == keys.len() || keys[at] == key,
    ensures
        first_index(keys, key) == at,
    decreases keys.len(),
{
    if at > 0 {
        assert(keys[0] != key);
        let rest = keys.drop_first();
        assert forall|i: int| 0 <= i < at - 1 implies rest[i] != key by {
            assert(rest[i] == keys[i + 1]);
        }
        assert(at == keys.len() || rest[at - 1] == keys[at]);
        first_index_is(rest, key, at - 1);
    }
}

/// The text stands at its first place, and nowhere before.
pub proof fn first_index_facts(keys: Seq<Seq<char>>, key: Seq<char>)
    ensures
        first_index(keys, key) <= keys.len(),
        forall|i: int| 0 <= i < first_index(keys, key) ==> keys[i] != key,
        first_index(keys, key) < keys.len() ==> keys[first_index(keys, key) as int] == key,
        first_index(keys, key) < keys.len() <==> keys.contains(key),
    decreases keys.len(),
{
    if keys.len() > 0 && keys[0] != key {
        let rest = keys.drop_first();
        first_index_facts(rest, key);
        assert forall|i: int| 0 <= i < first_index(keys, key) implies keys[i] != key by {
            if i > 0 {
                assert(keys[i] == rest[i - 1]);
            }
        }
        if keys.contains(key) {
            let j = choose|j: int| 0 <= j < keys.len() && keys[j] == key;
            assert(rest[j - 1] == key);
        }
    }
}

/// How many different texts a list holds.
pub open spec fn distinct(keys: Seq<Seq<char>>) -> nat
    decreases keys.len(),
{
    if keys.len() == 0 {
        0
    } else {
        distinct(keys.drop_last()) + (if keys.drop_last().contains(keys.last()) {
            0nat
        } else {
            1nat
        })
    }
}

/// The last place of a key, or the length of the list.
pub open spec fn last_index(keys: Seq<Seq<char>>, key: Seq<char>) -> nat
    decreases keys.len(),
{
    if keys.len() == 0 {
        0
    } else if keys.last() == key {
        (keys.len() - 1) as nat
    } else {
        let at = last_index(keys.drop_last(), key);
        if at < keys.len() - 1 {
            at
        } else {
            keys.len()
        }
    }
}

pub proof fn last_index_is(keys: Seq<Seq<char>>, key: Seq<char>, at: int)
    requires
        0 <= at < keys.len(),
        keys[at] == key,
        forall|i: int| at < i < keys.len() ==> keys[i] != key,
    ensures
        last_index(keys, key) == at,
    decreases keys.len(),
{
    if at < keys.len() - 1 {
        assert(keys.drop_last()[at] == key);
        last_index_is(keys.drop_last(), key, at);
    }
}

pub proof fn last_index_none(keys: Seq<Seq<char>>, key: Seq<char>)
    requires
        !keys.contains(key),
    ensures
        last_index(keys, key) == keys.len(),
    decreases keys.len(),
{
    if keys.len() > 0 {
        assert(keys[keys.len() - 1] == keys.last());
        assert forall|i: int| 0 <= i < keys.drop_last().len() implies keys.drop_last()[i] != key by {
            assert(keys[i] != key);
        }
        last_index_none(keys.drop_last(), key);
    }
}

pub proof fn last_index_facts(keys: Seq<Seq<char>>, key: Seq<char>)
    ensures
        last_index(keys, key) <= keys.len(),
        last_index(keys, key) < keys.len() ==> keys[last_index(keys, key) as int] == key,
        last_index(keys, key) < keys.len() <==> keys.contains(key),
    decreases keys.len(),
{
    if keys.len() > 0 {
        let rest = keys.drop_last();
        last_index_facts(rest, key);
        if keys.last() == key {
            assert(keys[keys.len() - 1] == key);
        } else if keys.contains(key) {
            let i = choose|i: int| 0 <= i < keys.len() && keys[i] == key;
            assert(rest[i] == key);
        } else {
            assert(!rest.contains(key)) by {
                if rest.contains(key) {
                    let i = choose|i: int| 0 <= i < rest.len() && rest[i] == key;
                    assert(keys[i] == key);
                }
            }
        }
    }
}

/// A list without repetitions holds as many texts as it is long.
pub proof fn distinct_of_unique(keys: Seq<Seq<char>>)
    requires
        keys.no_duplicates(),
    ensures
        distinct(keys) == keys.len(),
    decreases keys.len(),
{
    if keys.len() > 0 {
        let rest = keys.drop_last();
        assert forall|i: int, j: int| 0 <= i < rest.len() && 0 <= j < rest.len() && i
            != j implies rest[i] != rest[j] by {
            assert(keys[i] != keys[j]);
        }
        distinct_of_unique(rest);
        assert(!rest.contains(keys.last())) by {
            if rest.contains(keys.last()) {
                let i = choose|i: int| 0 <= i < rest.len() && rest[i] == keys.last();
                assert(keys[i] != keys[keys.len() - 1]);
            }
        }
    }
}

pub proof fn distinct_at_most(keys: Seq<Seq<char>>)
    ensures
        distinct(keys) <= keys.len(),
    decreases keys.len(),
{
    if keys.len() > 0 {
        distinct_at_most(keys.drop_last());
    }
}

/// Whether a text is among the first texts of a list.
pub fn among_first(keys: &Vec<&str>, n: usize, key: &str) -> (r: bool)
    requires
        n <= keys.len(),
    ensures
        r == views(keys@).take(n as int).contains(key@),
{
    let ghost earlier = views(keys@).take(n as int);
    let mut i: usize = 0;
    while i < n
        invariant
            i <= n <= keys.len(),
            earlier == views(keys@).take(n as int),
            forall|j: int| 0 <= j < i ==> earlier[j] != key@,
        decreases n - i,
    {
        if same_text(keys[i], key) {
            assert(earlier[i as int] == key@);
            return true;
        }
        i = i + 1;
    }
    false
}

/// The texts of a list of borrowed texts.
pub open spec fn views(keys: Seq<&str>) -> Seq<Seq<char>> {
    Seq::new(keys.len(), |i: int| keys[i]@)
}

/// How many different texts a list holds.
pub fn count_distinct(keys: &Vec<&str>) -> (r: usize)
    ensures
        r == distinct(views(keys@)),
{
    let ghost all = views(keys@);
    let mut count: usize = 0;
    let mut i: usize = 0;
    while i < keys.len()
        invariant
            i <= keys.len(),
            count <= i,
            all == views(keys@),
            count == distinct(all.take(i as int)),
        decreases keys.len() - i,
    {
        let ghost longer = all.take(i + 1);
        assert(longer.drop_last() =~= all.take(i as int));
        if !among_first(keys, i, keys[i]) {
            count = count + 1;
        }
        i = i + 1;
    }
    assert(all.take(i as int) =~= all);
    count
}

/// The first place of a text in a list, or the length of the list.
pub fn first_place(keys: &Vec<&str>, key: &str) -> (r: usize)
    ensures
        r == first_index(views(keys@), key@),
        r <= keys@.len(),
        r < keys@.len() ==> keys@[r as int]@ == key@,
{
    let mut i: usize = 0;
    while i < keys.len() && !same_text(keys[i], key)
        invariant
            i <= keys.len(),
            forall|j: int| 0 <= j < i ==> views(keys@)[j] != key@,
        decreases keys.len() - i,
    {
        i = i + 1;
    }
    proof {
        first_index_is(views(keys@), key@, i as int);
    }
    i
}

/// The last place of a text in a list, or the length of the list.
pub fn last_place(keys: &Vec<&str>, key: &str) -> (r: usize)
    ensures
        r == last_index(views(keys@), key@),
        r <= keys@.len(),
        r < keys@.len() ==> keys@[r as int]@ == key@,
{
    let ghost all = views(keys@);
    let mut i: usize = keys.len();
    while i > 0
        invariant
            i <= keys.len(),
            all == views(keys@),
            forall|j: int| i <= j < all.len() ==> all[j] != key@,
        decreases i,
    {
        i = i - 1;
        if same_text(keys[i], key) {
            proof {
                last_index_is(all, key@, i as int);
            }
            return i;
        }
    }
    proof {
        last_index_none(all, key@);
    }
    keys.len()
}

/// The list with a text put behind all that it does not precede.
pub open spec fn with_text(list: Seq<Seq<char>>, text: Seq<char>) -> Seq<Seq<char>>
    decreases list.len(),
{
    if list.len() == 0 || !precedes(text, list.last()) {
        list.push(text)
    } else {
        with_text(list.drop_last(), text).push(list.last())
    }
}

/// The texts of a list in ascending order.
pub open spec fn ascending(list: Seq<Seq<char>>) -> Seq<Seq<char>>
    decreases list.len(),
{
    if list.len() == 0 {
        Seq::empty()
    } else {
        with_text(ascending(list.drop_last()), list.last())
    }
}

proof fn with_text_at(list: Seq<Seq<char>>, text: Seq<char>, at: int)
    requires
        0 <= at <= list.len(),
        forall|i: int| at <= i < list.len() ==> precedes(text, #[trigger] list[i]),
        at > 0 ==> !precedes(text, list[at - 1]),
    ensures
        with_text(list, text) == list.insert(at, text),
    decreases list.len(),
{
    if at == list.len() {
        if list.len() > 0 {
            assert(list[list.len() - 1] == list.last());
        }
        assert(list.push(text) =~= list.insert(at, text));
    } else {
        let shorter = list.drop_last();
        assert(precedes(text, list[list.len() - 1]));
        assert forall|i: int| at <= i < shorter.len() implies precedes(text, #[trigger] shorter[i]) by {
            assert(shorter[i] == list[i]);
        }
        with_text_at(shorter, text, at);
        assert(shorter.insert(at, text).push(list.last()) =~= list.insert(at, text));
    }
}

/// Puts the texts of a list in ascending order.
pub fn sort_texts(values: Vec<String>) -> (r: Vec<String>)
    ensures
        texts(r@) == ascending(texts(values@)),
{
    let ghost all = texts(values@);
    let mut list: Vec<String> = Vec::new();
    assert(texts(list@) =~= ascending(all.take(0)));
    for value in it: values
        invariant
            it.seq() == values@,
            all == texts(values@),
            texts(list@) == ascending(all.take(it.index())),
    {
        let ghost longer = all.take(it.index() + 1);
        assert(longer.drop_last() =~= all.take(it.index()));
        assert(longer.last() == value@);
        let ghost before = list@;
        let mut at: usize = list.len();
        while at > 0 && text_precedes(value.as_str(), list[at - 1].as_str())
            invariant
                at <= list.len(),
                list@ == before,
                forall|i: int|
                    at <= i < list.len() ==> precedes(value@, #[trigger] texts(before)[i]),
            decreases at,
        {
            at = at - 1;
        }
        proof {
            if at > 0 {
                assert(texts(before)[at - 1] == before[at - 1]@);
            }
            with_text_at(texts(before), value@, at as int);
        }
        let ghost name = value@;
        list.insert(at, value);
        assert(texts(list@) =~= texts(before).insert(at as int, name));
    }
    assert(all.take(all.len() as int) =~= all);
    list
}

proof fn with_text_adds_one(list: Seq<Seq<char>>, text: Seq<char>)
    ensures
        with_text(list, text).len() == list.len() + 1,
        with_text(list, text).to_multiset() == list.to_multiset().insert(text),
    decreases list.len(),
{
    broadcast use vstd::seq_lib::group_to_multiset_ensures;

    if list.len() > 0 && precedes(text, list.last()) {
        let shorter = list.drop_last();
        let last = list.last();
        with_text_adds_one(shorter, text);
        assert(shorter.push(last) =~= list);
        assert(shorter.to_multiset().insert(text).insert(last) =~= shorter.to_multiset().insert(
            last,
        ).insert(text));
    }
}

/// Putting texts in order leaves out nothing and adds nothing.
pub proof fn ascending_is_a_rearrangement(list: Seq<Seq<char>>)
    ensures
        ascending(list).len() == list.len(),
        ascending(list).to_multiset() == list.to_multiset(),
        forall|text: Seq<char>| #[trigger] ascending(list).contains(text) <==> list.contains(text),
    decreases list.len(),
{
    broadcast use vstd::seq_lib::group_to_multiset_ensures;

    if list.len() > 0 {
        ascending_is_a_rearrangement(list.drop_last());
        with_text_adds_one(ascending(list.drop_last()), list.last());
        assert(list.drop_last().push(list.last()) =~= list);
    } else {
        assert(ascending(list) =~= list);
    }
    assert forall|text: Seq<char>| #[trigger] ascending(list).contains(text) <==> list.contains(
        text,
    ) by {
        assert(ascending(list).to_multiset().count(text) == list.to_multiset().count(text));
    }
}

proof fn with_text_keeps_order(list: Seq<Seq<char>>, text: Seq<char>)
    requires
        strictly_sorted(list),
        !list.contains(text),
    ensures
        strictly_sorted(with_text(list, text)),
    decreases list.len(),
{
    broadcast use vstd::seq_lib::group_to_multiset_ensures;

    let after = with_text(list, text);
    let last = list.len() - 1;
    if list.len() == 0 || !precedes(text, list.last()) {
        assert forall|i: int, j: int| 0 <= i < j < after.len() implies precedes(
            #[trigger] after[i],
            #[trigger] after[j],
        ) by {
            if j < list.len() {
                assert(precedes(list[i], list[j]));
            } else {
                assert(list[last] != text);
                precedes_total(list[last], text);
                if i < last {
                    assert(precedes(list[i], list[last]));
                    precedes_transitive(list[i], list[last], text);
                }
            }
        }
    } else {
        let shorter = list.drop_last();
        assert forall|i: int, j: int| 0 <= i < j < shorter.len() implies precedes(
            #[trigger] shorter[i],
            #[trigger] shorter[j],
        ) by {
            assert(precedes(list[i], list[j]));
        }
        assert(!shorter.contains(text)) by {
            if shorter.contains(text) {
                let k = choose|k: int| 0 <= k < shorter.len() && shorter[k] == text;
                assert(list[k] == text);
            }
        }
        with_text_keeps_order(shorter, text);
        with_text_adds_one(shorter, text);
        let before = with_text(shorter, text);
        assert forall|i: int, j: int| 0 <= i < j < after.len() implies precedes(
            #[trigger] after[i],
            #[trigger] after[j],
        ) by {
            assert(after[i] == before[i]);
            if j < before.len() {
                assert(after[j] == before[j]);
            } else if before[i] != text {
                assert(before.contains(before[i]));
                assert(before.to_multiset().count(before[i]) > 0);
                assert(shorter.to_multiset().count(before[i]) > 0);
                assert(shorter.contains(before[i]));
                let k = choose|k: int| 0 <= k < shorter.len() && shorter[k] == before[i];
                assert(precedes(list[k], list[last]));
            }
        }
    }
}

/// Texts of which none occurs twice are strictly sorted once they are in order.
pub proof fn ascending_is_sorted(list: Seq<Seq<char>>)
    requires
        list.no_duplicates(),
    ensures
        strictly_sorted(ascending(list)),
    decreases list.len(),
{
    if list.len() > 0 {
        let shorter = list.drop_last();
        ascending_is_sorted(shorter);
        ascending_is_a_rearrangement(shorter);
        if ascending(shorter).contains(list.last()) {
            let k = choose|k: int| 0 <= k < shorter.len() && shorter[k] == list.last();
            assert(list[k] == list[list.len() - 1]);
        }
        with_text_keeps_order(ascending(shorter), list.last());
    }
}

proof fn lasts_agree(a: Seq<Seq<char>>, b: Seq<Seq<char>>)
    requires
        strictly_sorted(a),
        strictly_sorted(b),
        a.len() > 0,
        b.len() > 0,
        b.contains(a.last()),
        a.contains(b.last()),
    ensures
        a.last() == b.last(),
{
    let i = choose|i: int| 0 <= i < a.len() && a[i] == b.last();
    let j = choose|j: int| 0 <= j < b.len() && b[j] == a.last();
    if a.last() != b.last() {
        assert(precedes(a[i], a[a.len() - 1]));
        assert(precedes(b[j], b[b.len() - 1]));
        precedes_asymmetric(a.last(), b.last());
    }
}

/// Two strictly sorted lists that hold the same texts are one list.
pub proof fn strictly_sorted_lists_agree(a: Seq<Seq<char>>, b: Seq<Seq<char>>)
    requires
        strictly_sorted(a),
        strictly_sorted(b),
        forall|text: Seq<char>| #[trigger] a.contains(text) <==> b.contains(text),
    ensures
        a == b,
    decreases a.len(),
{
    if a.len() == 0 {
        if b.len() > 0 {
            assert(b.contains(b[0]));
            assert(a.contains(b[0]));
        }
        assert(a =~= b);
    } else {
        assert(a.contains(a[a.len() - 1]));
        assert(b.contains(a.last()));
        assert(b.contains(b[b.len() - 1]));
        assert(a.contains(b.last()));
        lasts_agree(a, b);
        let fewer = a.drop_last();
        let others = b.drop_last();
        assert forall|i: int, j: int| 0 <= i < j < fewer.len() implies precedes(
            #[trigger] fewer[i],
            #[trigger] fewer[j],
        ) by {
            assert(precedes(a[i], a[j]));
        }
        assert forall|i: int, j: int| 0 <= i < j < others.len() implies precedes(
            #[trigger] others[i],
            #[trigger] others[j],
        ) by {
            assert(precedes(b[i], b[j]));
        }
        assert forall|text: Seq<char>| #[trigger] fewer.contains(text) <==> others.contains(
            text,
        ) by {
            if fewer.contains(text) {
                let k = choose|k: int| 0 <= k < fewer.len() && fewer[k] == text;
                assert(precedes(a[k], a[a.len() - 1]));
                precedes_asymmetric(a[k], a.last());
                assert(a.contains(a[k]));
                assert(b.contains(text));
                let m = choose|m: int| 0 <= m < b.len() && b[m] == text;
                assert(others[m] == text);
            }
            if others.contains(text) {
                let k = choose|k: int| 0 <= k < others.len() && others[k] == text;
                assert(precedes(b[k], b[b.len() - 1]));
                precedes_asymmetric(b[k], b.last());
                assert(b.contains(b[k]));
                assert(a.contains(text));
                let m = choose|m: int| 0 <= m < a.len() && a[m] == text;
                assert(fewer[m] == text);
            }
        }
        strictly_sorted_lists_agree(fewer, others);
        assert(a =~= fewer.push(a.last()));
        assert(b =~= others.push(b.last()));
    }
}

/// A text comes before every other that it begins, and otherwise the one comes
/// first that has the smaller character where they first differ.
pub proof fn smaller_texts_come_first(a: Seq<char>, b: Seq<char>, n: int)
    requires
        0 <= n <= a.len(),
        n <= b.len(),
        forall|j: int| 0 <= j < n ==> a[j] == b[j],
    ensures
        n == a.len() && n < b.len() ==> precedes(a, b) && !precedes(b, a),
        n < a.len() && n < b.len() && a[n] < b[n] ==> precedes(a, b) && !precedes(b, a),
{
    if n < b.len() && (n == a.len() || a[n] < b[n]) {
        assert(precedes_at(a, b, n));
        precedes_asymmetric(a, b);
    }
}

/// A text is blank if it holds nothing, or nothing but space: no letter, digit or
/// mark is space.
pub proof fn visible_characters_are_not_blank(text: Seq<char>, i: int)
    ensures
        text.len() == 0 ==> blank(text),
        0 <= i < text.len() && '\u{21}' <= text[i] <= '\u{7e}' ==> !blank(text),
        (forall|j: int|
            0 <= j < text.len() ==> #[trigger] text[j] == ' ' || text[j] == '\t' || text[j] == '\n'
                || text[j] == '\r') ==> blank(text),
{
    if 0 <= i < text.len() && '\u{21}' <= text[i] <= '\u{7e}' {
        assert(!white_space(text[i]));
    }
}

/// Signatures are sixty-four characters of which each is a digit or one of the
/// small letters from a to f.
pub proof fn signatures_are_small_hex(text: Seq<char>)
    ensures
        lower_hex_64(text) <==> text.len() == 64 && forall|i: int|
            0 <= i < text.len() ==> '0' <= #[trigger] text[i] <= '9' || 'a' <= text[i] <= 'f',
{
    if lower_hex_64(text) {
        assert forall|i: int| 0 <= i < text.len() implies '0' <= #[trigger] text[i] <= '9' || 'a'
            <= text[i] <= 'f' by {
            assert(lower_hex_digit(text[i]));
        }
    }
}

/// A text begins with another if it is that one followed by the rest.
pub proof fn beginnings_are_followed_by_the_rest(text: Seq<char>, prefix: Seq<char>)
    ensures
        begins_with(prefix + text, prefix),
        begins_with(text, prefix) ==> text == prefix + text.skip(prefix.len() as int),
{
    assert((prefix + text).take(prefix.len() as int) == prefix);
    if begins_with(text, prefix) {
        assert(text == text.take(prefix.len() as int) + text.skip(prefix.len() as int));
    }
}

/// A number is written with the digits that it has.
pub proof fn numbers_are_written_in_tens(n: nat)
    ensures
        decimal(n).len() >= 1,
        n < 10 ==> decimal(n).len() == 1 && decimal(n)[0] as int == '0' as int + n,
        n >= 10 ==> decimal(n) == decimal(n / 10).push(decimal(n % 10)[0]),
        signed_decimal(n as int) == decimal(n),
        n > 0 ==> signed_decimal(-(n as int)) == seq!['-'] + decimal(n),
    decreases n,
{
    if n >= 10 {
        numbers_are_written_in_tens(n / 10);
    }
}

}
