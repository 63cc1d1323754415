//! Character classes and small operations on text that the rest of the crate
//! states its contracts with.

use vstd::prelude::*;
use vstd::string::*;

verus! {

/// ASCII letter, ASCII digit or underscore.
pub open spec fn is_ident_char(c: char) -> bool {
    ||| 'a' <= c <= 'z'
    ||| 'A' <= c <= 'Z'
    ||| '0' <= c <= '9'
    ||| c == '_'
}

/// Every character is an ASCII letter, an ASCII digit or an underscore.
pub open spec fn all_ident_chars(s: Seq<char>) -> bool {
    forall|i: int| 0 <= i < s.len() ==> is_ident_char(#[trigger] s[i])
}

/// A user identifier: one or more ASCII letters, digits and underscores.
pub open spec fn is_identifier(s: Seq<char>) -> bool {
    s.len() > 0 && all_ident_chars(s)
}

/// An identifier that may stand alone in the emitted code: it does not start
/// with a digit.
pub open spec fn is_bare_identifier(s: Seq<char>) -> bool {
    is_identifier(s) && !('0' <= s[0] <= '9')
}

/// The views of a sequence of strings.
pub open spec fn views(v: Seq<String>) -> Seq<Seq<char>> {
    v.map_values(|s: String| s@)
}

/// The views of a sequence of string slices.
pub open spec fn str_views(v: Seq<&str>) -> Seq<Seq<char>> {
    v.map_values(|s: &str| s@)
}

/// The decimal digit that stands for `d`, for `d` below ten.
pub open spec fn digit_char(d: nat) -> char {
    if d == 0 {
        '0'
    } else if d == 1 {
        '1'
    } else if d == 2 {
        '2'
    } else if d == 3 {
        '3'
    } else if d == 4 {
        '4'
    } else if d == 5 {
        '5'
    } else if d == 6 {
        '6'
    } else if d == 7 {
        '7'
    } else if d == 8 {
        '8'
    } else {
        '9'
    }
}

/// `n` written in decimal, without leading zeros.
pub open spec fn decimal_text(n: nat) -> Seq<char>
    decreases n,
{
    if n < 10 {
        seq![digit_char(n)]
    } else {
        decimal_text(n / 10).push(digit_char(n % 10))
    }
}

/// `s` cut at every occurrence of `sep`. There is always at least one piece:
/// the empty text gives one empty piece, and a separator at either end gives
/// an empty piece there.
pub open spec fn split_on(s: Seq<char>, sep: char) -> Seq<Seq<char>>
    decreases s.len(),
{
    if s.len() == 0 {
        seq![Seq::<char>::empty()]
    } else {
        let before = split_on(s.drop_last(), sep);
        if s.last() == sep {
            before.push(Seq::<char>::empty())
        } else {
            before.drop_last().push(before.last().push(s.last()))
        }
    }
}

/// What `<str as core::fmt::Debug>::fmt` writes for a text: the text
/// between double quotes, with what cannot stand there written as an escape.
pub uninterp spec fn quoted(s: Seq<char>) -> Seq<char>;

/// The first `n` of some texts, each as `quoted` writes it, with a comma
/// and a blank between them.
pub open spec fn quoted_items(items: Seq<Seq<char>>, n: nat) -> Seq<char>
    decreases n,
{
    if n == 0 {
        Seq::<char>::empty()
    } else if n == 1 {
        quoted(items[0])
    } else {
        quoted_items(items, (n - 1) as nat) + ", "@ + quoted(items[n - 1])
    }
}

/// A list of texts as it is shown in a message: in square brackets, each
/// text as `quoted` writes it.
pub open spec fn quoted_list(items: Seq<Seq<char>>) -> Seq<char> {
    "["@ + quoted_items(items, items.len()) + "]"@
}

/// The first place at which `x` stands in `s`, if it stands there at all.
pub open spec fn first_position<T>(s: Seq<T>, x: T) -> Option<int> {
    if exists|i: int| is_first_position(s, x, i) {
        Some(choose|i: int| is_first_position(s, x, i))
    } else {
        None
    }
}

pub open spec fn is_first_position<T>(s: Seq<T>, x: T, i: int) -> bool {
    &&& 0 <= i < s.len()
    &&& s[i] == x
    &&& forall|j: int| 0 <= j < i ==> s[j] != x
}

/// What a search from the front has found is the first position.
pub proof fn lemma_first_position<T>(s: Seq<T>, x: T, i: int)
    requires
        is_first_position(s, x, i),
    ensures
        first_position(s, x) == Some(i),
{
    let c = choose|k: int| is_first_position(s, x, k);
    assert(is_first_position(s, x, c));
    if c < i {
        assert(s[c] != x);
    }
    if i < c {
        assert(s[i] != x);
    }
}

/// Where a search from the front has found nothing, there is no position.
pub proof fn lemma_no_position<T>(s: Seq<T>, x: T)
    requires
        forall|j: int| 0 <= j < s.len() ==> s[j] != x,
    ensures
        first_position(s, x) is None,
{
}

/// Where there is no first position, the thing stands nowhere.
pub proof fn lemma_absent<T>(s: Seq<T>, x: T, i: int)
    requires
        first_position(s, x) is None,
        0 <= i < s.len(),
    ensures
        s[i] != x,
    decreases i,
{
    if s[i] == x {
        if forall|j: int| 0 <= j < i ==> s[j] != x {
            assert(is_first_position(s, x, i));
        } else {
            let j = choose|j: int| 0 <= j < i && s[j] == x;
            lemma_absent(s, x, j);
        }
    }
}

/// Nothing stands at two places.
pub open spec fn distinct<T>(s: Seq<T>) -> bool {
    forall|i: int, j: int| 0 <= i < j < s.len() ==> s[i] != s[j]
}

/// What stands nowhere in a sequence of distinct things can be put behind
/// them.
pub proof fn lemma_distinct_push<T>(s: Seq<T>, x: T)
    requires
        distinct(s),
        first_position(s, x) is None,
    ensures
        distinct(s.push(x)),
{
    assert forall|i: int, j: int| 0 <= i < j < s.push(x).len() implies s.push(x)[i] != s.push(
        x,
    )[j] by {
        if j == s.len() {
            lemma_absent(s, x, i);
        }
    }
}

/// In a sequence of distinct things every place is the first position of
/// what stands there.
pub proof fn lemma_distinct_position<T>(s: Seq<T>, i: int)
    requires
        distinct(s),
        0 <= i < s.len(),
    ensures
        first_position(s, s[i]) == Some(i),
{
    assert(is_first_position(s, s[i], i));
    lemma_first_position(s, s[i], i);
}

/// `format!("{:?}", s)`, which for a text is `<str as core::fmt::Debug>::fmt`.
/// What it writes depends on the text alone; nothing else is claimed of it.
#[verifier::external_body]
pub(crate) fn debug_str(s: &str) -> (r: String)
    ensures
        r@ == quoted(s@),
{
    format!("{:?}", s)
}

/// A list of texts as it is shown in a message.
pub fn quote_list(items: &[&str]) -> (r: String)
    ensures
        r@ == quoted_list(str_views(items@)),
{
    let mut inner = String::new();
    let mut i: usize = 0;
    while i < items.len()
        invariant
            i <= items.len(),
            inner@ == quoted_items(str_views(items@), i as nat),
        decreases items.len() - i,
    {
        assert(str_views(items@)[i as int] == items@[i as int]@);
        let item = debug_str(items[i]);
        if i > 0 {
            inner.append(", ");
            inner.append(item.as_str());
        } else {
            inner.append(item.as_str());
            assert(inner@ =~= quoted(str_views(items@)[0]));
        }
        i += 1;
    }
    let mut r = String::from_str("[");
    r.append(inner.as_str());
    r.append("]");
    r
}

/// The characters of `s`, in order.
pub fn chars_of(s: &str) -> (v: Vec<char>)
    ensures
        v@ == s@,
{
    let mut v: Vec<char> = Vec::new();
    for c in it: s.chars()
        invariant
            it.seq() == s@,
            v@ == it.seq().take(it.index() as int),
    {
        v.push(c);
        assert(it.seq().take(it.index() + 1) == it.seq().take(it.index() as int).push(c));
    }
    assert(v@ == s@.take(s@.len() as int));
    v
}

/// Whether two texts hold the same characters.
pub fn str_equal(a: &str, b: &str) -> (same: bool)
    ensures
        same == (a@ == b@),
{
    let x = a.to_owned();
    let y = b.to_owned();
    x == y
}

/// Tests a character for `is_ident_char`.
pub fn ident_char(c: char) -> (b: bool)
    ensures
        b == is_ident_char(c),
{
    ('a' <= c && c <= 'z') || ('A' <= c && c <= 'Z') || ('0' <= c && c <= '9') || c == '_'
}

/// Tests a text for `all_ident_chars`.
pub fn only_ident_chars(s: &str) -> (b: bool)
    ensures
        b == all_ident_chars(s@),
{
    let chars = chars_of(s);
    let mut i: usize = 0;
    while i < chars.len()
        invariant
            i <= chars.len(),
            chars@ == s@,
            forall|j: int| 0 <= j < i ==> is_ident_char(#[trigger] s@[j]),
        decreases chars.len() - i,
    {
        if !ident_char(chars[i]) {
            return false;
        }
        i += 1;
    }
    true
}

/// Tests a text for `is_identifier`.
pub fn identifier(s: &str) -> (b: bool)
    ensures
        b == is_identifier(s@),
{
    let chars = chars_of(s);
    chars.len() > 0 && only_ident_chars(s)
}

/// Tests a text for `is_bare_identifier`.
pub fn bare_identifier(s: &str) -> (b: bool)
    ensures
        b == is_bare_identifier(s@),
{
    let chars = chars_of(s);
    if chars.len() == 0 {
        return false;
    }
    let first = chars[0];
    only_ident_chars(s) && !('0' <= first && first <= '9')
}

/// The text of one decimal digit.
fn digit_text(d: usize) -> (t: &'static str)
    requires
        d < 10,
    ensures
        t@ == seq![digit_char(d as nat)],
{
    proof {
        reveal_strlit("0");
        reveal_strlit("1");
        reveal_strlit("2");
        reveal_strlit("3");
        reveal_strlit("4");
        reveal_strlit("5");
        reveal_strlit("6");
        reveal_strlit("7");
        reveal_strlit("8");
        reveal_strlit("9");
    }
    let t = if d == 0 {
        "0"
    } else if d == 1 {
        "1"
    } else if d == 2 {
        "2"
    } else if d == 3 {
        "3"
    } else if d == 4 {
        "4"
    } else if d == 5 {
        "5"
    } else if d == 6 {
        "6"
    } else if d == 7 {
        "7"
    } else if d == 8 {
        "8"
    } else {
        "9"
    };
    assert(t@ =~= seq![digit_char(d as nat)]);
    t
}

/// Writes `n` in decimal.
pub fn decimal(n: usize) -> (t: String)
    ensures
        t@ == decimal_text(n as nat),
    decreases n,
{
    if n < 10 {
        String::from_str(digit_text(n))
    } else {
        let mut t = decimal(n / 10);
        t.append(digit_text(n % 10));
        assert(t@ =~= decimal_text(n as nat));
        t
    }
}

/// Cuts `s` at every comma.
pub fn split_commas(s: &str) -> (pieces: Vec<String>)
    ensures
        views(pieces@) == split_on(s@, ','),
{
    let chars = chars_of(s);
    let mut pieces: Vec<String> = Vec::new();
    let mut start: usize = 0;
    let mut i: usize = 0;
    proof {
        assert(s@.take(0) =~= Seq::<char>::empty());
        assert(views(pieces@) =~= Seq::<Seq<char>>::empty());
        assert(s@.subrange(0, 0) =~= Seq::<char>::empty());
        assert(views(pieces@).push(s@.subrange(0, 0)) =~= seq![Seq::<char>::empty()]);
    }
    while i < chars.len()
        invariant
            start <= i <= chars.len(),
            chars@ == s@,
            split_on(s@.take(i as int), ',') == views(pieces@).push(
                s@.subrange(start as int, i as int),
            ),
        decreases chars.len() - i,
    {
        let ghost before = split_on(s@.take(i as int), ',');
        proof {
            assert(s@.take(i + 1).drop_last() =~= s@.take(i as int));
            assert(s@.take(i + 1).last() == s@[i as int]);
        }
        if chars[i] == ',' {
            let piece = s.substring_char(start, i).to_owned();
            let ghost old_pieces = pieces@;
            pieces.push(piece);
            proof {
                assert(views(pieces@) =~= views(old_pieces).push(piece@));
                assert(s@.subrange(i + 1, i + 1) =~= Seq::<char>::empty());
            }
            start = i + 1;
        } else {
            proof {
                assert(before.drop_last() =~= views(pieces@));
                assert(before.last().push(s@[i as int]) =~= s@.subrange(start as int, i + 1));
            }
        }
        i += 1;
    }
    let last = s.substring_char(start, i).to_owned();
    let ghost old_pieces = pieces@;
    pieces.push(last);
    proof {
        assert(s@.take(i as int) =~= s@);
        assert(views(pieces@) =~= views(old_pieces).push(last@));
    }
    pieces
}

} // verus!
