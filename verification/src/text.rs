//! Text: the mathematical model of strings and the few string operations the
//! syncer needs (comparison, splitting, trimming and decimal notation).
use vstd::prelude::*;
use vstd::string::*;
use vstd::utf8::*;

verus! {

/// The model of a string: the sequence of its characters.
pub type Text = Seq<char>;

/// The views of the elements of a sequence.
pub open spec fn views<T: View>(s: Seq<T>) -> Seq<T::V> {
    Seq::new(s.len(), |i: int| s[i]@)
}

/// The view of an optional value.
pub open spec fn view_opt<T: View>(o: Option<T>) -> Option<T::V> {
    match o {
        Some(v) => Some(v@),
        None => None,
    }
}

/// The view of an optional vector.
pub open spec fn view_opt_vec<T: View>(o: Option<Vec<T>>) -> Option<Seq<T::V>> {
    match o {
        Some(v) => Some(views(v@)),
        None => None,
    }
}

/// The view of a result.
pub open spec fn view_res<T: View, E: View>(r: Result<T, E>) -> Result<T::V, E::V> {
    match r {
        Ok(v) => Ok(v@),
        Err(e) => Err(e@),
    }
}

/// `o`, or the empty text.
pub open spec fn or_empty(o: Option<Text>) -> Text {
    match o {
        Some(t) => t,
        None => Seq::empty(),
    }
}

/// Equal encodings come from equal texts.
proof fn lemma_encoding_injective(a: Text, b: Text)
    ensures
        encode_utf8(a) == encode_utf8(b) ==> a == b,
{
    encode_utf8_decode_utf8(a);
    encode_utf8_decode_utf8(b);
}

/// Whether `a` and `b` hold the same text.
pub fn same_text(a: &str, b: &str) -> (res: bool)
    ensures
        res == (a@ == b@),
{
    proof {
        lemma_encoding_injective(a@, b@);
    }
    let x: &[u8] = a.as_bytes();
    let y: &[u8] = b.as_bytes();
    if x.len() != y.len() {
        return false;
    }
    let mut i: usize = 0;
    while i < x.len()
        invariant
            i <= x@.len(),
            x@.len() == y@.len(),
            x@ == encode_utf8(a@),
            y@ == encode_utf8(b@),
            forall|j: int| 0 <= j < i ==> x@[j] == y@[j],
        decreases x@.len() - i,
    {
        if x[i] != y[i] {
            return false;
        }
        i = i + 1;
    }
    assert(x@ =~= y@);
    true
}

/// Whether two optional strings are equal.
pub fn same_optional_text(a: &Option<String>, b: &Option<String>) -> (res: bool)
    ensures
        res == (view_opt(*a) == view_opt(*b)),
{
    match (a, b) {
        (Some(x), Some(y)) => same_text(x.as_str(), y.as_str()),
        (None, None) => true,
        _ => false,
    }
}

/// `a` comes strictly before `b` in the dictionary order on bytes.
pub open spec fn precedes(a: Seq<u8>, b: Seq<u8>) -> bool {
    exists|k: int| #[trigger] splits_at(a, b, k)
}

/// `a` and `b` agree on their first `k` bytes, and `a` is smaller from there on.
pub open spec fn splits_at(a: Seq<u8>, b: Seq<u8>, k: int) -> bool {
    &&& 0 <= k <= a.len()
    &&& k < b.len()
    &&& forall|j: int| 0 <= j < k ==> a[j] == b[j]
    &&& k < a.len() ==> a[k] < b[k]
}

/// `a` comes strictly before `b` in the order of strings.
pub open spec fn text_precedes(a: Text, b: Text) -> bool {
    precedes(encode_utf8(a), encode_utf8(b))
}

/// The order on bytes is irreflexive, asymmetric, transitive and total.
pub proof fn lemma_byte_order(a: Seq<u8>, b: Seq<u8>, c: Seq<u8>)
    ensures
        !precedes(a, a),
        precedes(a, b) ==> !precedes(b, a),
        precedes(a, b) && precedes(b, c) ==> precedes(a, c),
        a == b || precedes(a, b) || precedes(b, a),
    decreases a.len(),
{
    if precedes(a, b) && precedes(b, a) {
        let k = choose|k: int| #[trigger] splits_at(a, b, k);
        let l = choose|l: int| #[trigger] splits_at(b, a, l);
        if k < l {
            assert(b[k] == a[k]);
        } else if l < k {
            assert(a[l] == b[l]);
        }
        assert(false);
    }
    if precedes(a, b) && precedes(b, c) {
        let k = choose|k: int| #[trigger] splits_at(a, b, k);
        let l = choose|l: int| #[trigger] splits_at(b, c, l);
        let m = if k < l { k } else { l };
        assert(splits_at(a, c, m));
    }
    if a != b && !precedes(a, b) {
        lemma_first_difference(a, b);
    }
}

/// Two different byte sequences, the first not before the second, have the
/// second before the first.
proof fn lemma_first_difference(a: Seq<u8>, b: Seq<u8>)
    requires
        a != b,
        !precedes(a, b),
    ensures
        precedes(b, a),
    decreases a.len(),
{
    if a.len() == 0 {
        assert(b.len() > 0) by {
            if b.len() == 0 {
                assert(a =~= b);
            }
        }
        assert(splits_at(a, b, 0));
    } else if b.len() == 0 {
        assert(splits_at(b, a, 0));
    } else if a[0] != b[0] {
        if a[0] < b[0] {
            assert(splits_at(a, b, 0));
        }
        assert(splits_at(b, a, 0));
    } else {
        let x = a.drop_first();
        let y = b.drop_first();
        assert(a =~= seq![a[0]] + x);
        assert(b =~= seq![b[0]] + y);
        if precedes(x, y) {
            let k = choose|k: int| #[trigger] splits_at(x, y, k);
            assert forall|j: int| 0 <= j < k + 1 implies a[j] == b[j] by {
                if j > 0 {
                    assert(x[j - 1] == y[j - 1]);
                }
            }
            assert(splits_at(a, b, k + 1));
        }
        lemma_first_difference(x, y);
        let k = choose|k: int| #[trigger] splits_at(y, x, k);
        assert forall|j: int| 0 <= j < k + 1 implies b[j] == a[j] by {
            if j > 0 {
                assert(y[j - 1] == x[j - 1]);
            }
        }
        assert(splits_at(b, a, k + 1));
    }
}

/// The order of strings is irreflexive, asymmetric, transitive and total.
pub proof fn lemma_text_order(a: Text, b: Text, c: Text)
    ensures
        !text_precedes(a, a),
        text_precedes(a, b) ==> !text_precedes(b, a),
        text_precedes(a, b) && text_precedes(b, c) ==> text_precedes(a, c),
        a == b || text_precedes(a, b) || text_precedes(b, a),
{
    lemma_byte_order(encode_utf8(a), encode_utf8(b), encode_utf8(c));
    lemma_encoding_injective(a, b);
}

/// Whether `a` comes strictly before `b` in the order of strings.
pub fn text_before(a: &str, b: &str) -> (res: bool)
    ensures
        res == text_precedes(a@, b@),
{
    let x: &[u8] = a.as_bytes();
    let y: &[u8] = b.as_bytes();
    let mut i: usize = 0;
    while i < x.len() && i < y.len()
        invariant
            i <= x@.len(),
            i <= y@.len(),
            x@ == encode_utf8(a@),
            y@ == encode_utf8(b@),
            forall|j: int| 0 <= j < i ==> x@[j] == y@[j],
        decreases x@.len() - i,
    {
        if x[i] < y[i] {
            assert(splits_at(x@, y@, i as int));
            return true;
        }
        if x[i] > y[i] {
            assert(splits_at(y@, x@, i as int));
            proof {
                lemma_byte_order(x@, y@, x@);
            }
            return false;
        }
        i = i + 1;
    }
    if i < y.len() {
        assert(splits_at(x@, y@, i as int));
        true
    } else {
        proof {
            if precedes(x@, y@) {
                let k = choose|k: int| #[trigger] splits_at(x@, y@, k);
                assert(x@[k] == y@[k]);
                assert(false);
            }
        }
        false
    }
}

/// The digit that stands for `d`.
pub open spec fn digit(d: nat) -> Text {
    if d == 0 {
        "0"@
    } else if d == 1 {
        "1"@
    } else if d == 2 {
        "2"@
    } else if d == 3 {
        "3"@
    } else if d == 4 {
        "4"@
    } else if d == 5 {
        "5"@
    } else if d == 6 {
        "6"@
    } else if d == 7 {
        "7"@
    } else if d == 8 {
        "8"@
    } else {
        "9"@
    }
}

/// The decimal notation of `n`, without leading zeros.
pub open spec fn decimal(n: nat) -> Text
    decreases n,
{
    if n < 10 {
        digit(n)
    } else {
        decimal(n / 10) + digit(n % 10)
    }
}

/// The decimal notation of `i`, with a leading minus sign where it is negative.
pub open spec fn signed_decimal(i: int) -> Text {
    if i < 0 {
        "-"@ + decimal((-i) as nat)
    } else {
        decimal(i as nat)
    }
}

/// Writes `n` in decimal notation.
pub fn decimal_text(n: u64) -> (res: String)
    ensures
        res@ == decimal(n as nat),
    decreases n,
{
    let low: &str = match n % 10 {
        0 => "0",
        1 => "1",
        2 => "2",
        3 => "3",
        4 => "4",
        5 => "5",
        6 => "6",
        7 => "7",
        8 => "8",
        _ => "9",
    };
    if n < 10 {
        low.to_string()
    } else {
        let mut res = decimal_text(n / 10);
        res.append(low);
        res
    }
}

/// Writes `i` in decimal notation.
pub fn signed_decimal_text(i: i64) -> (res: String)
    ensures
        res@ == signed_decimal(i as int),
{
    if i < 0 {
        // The magnitude of the smallest value is taken one short of it.
        let magnitude: u64 = ((-(i + 1)) as u64) + 1;
        let mut res = "-".to_string();
        res.append(decimal_text(magnitude).as_str());
        res
    } else {
        decimal_text(i as u64)
    }
}

/// The pieces of `s` between the occurrences of `separator`.
pub open spec fn split(s: Text, separator: char) -> Seq<Text>
    decreases s.len(),
{
    if s.len() == 0 {
        seq![s]
    } else {
        let pieces = split(s.drop_last(), separator);
        if s.last() == separator {
            pieces.push(Seq::empty())
        } else {
            pieces.drop_last().push(pieces.last().push(s.last()))
        }
    }
}

/// A text without the separator is its only piece.
pub proof fn lemma_split_whole(s: Text, separator: char)
    requires
        !s.contains(separator),
    ensures
        split(s, separator) == seq![s],
    decreases s.len(),
{
    if s.len() > 0 {
        assert(s.last() == s[s.len() - 1]);
        assert forall|i: int| 0 <= i < s.len() - 1 implies s.drop_last()[i] != separator by {
            assert(s.drop_last()[i] == s[i]);
        }
        lemma_split_whole(s.drop_last(), separator);
        assert(s.drop_last().push(s.last()) =~= s);
        assert(split(s, separator) =~= seq![s]);
    }
}

/// Two texts without the separator, put together with one in between, split
/// into the two again.
pub proof fn lemma_split_pair(a: Text, b: Text, separator: char)
    requires
        !a.contains(separator),
        !b.contains(separator),
    ensures
        split(a.push(separator) + b, separator) == seq![a, b],
    decreases b.len(),
{
    let s = a.push(separator) + b;
    if b.len() == 0 {
        assert(s.drop_last() =~= a);
        lemma_split_whole(a, separator);
        assert(s.last() == separator);
        assert(b =~= Seq::empty());
        assert(split(s, separator) =~= seq![a, b]);
    } else {
        assert(b.last() == b[b.len() - 1]);
        assert(s.last() == b.last());
        assert(s.drop_last() =~= a.push(separator) + b.drop_last());
        assert forall|i: int| 0 <= i < b.len() - 1 implies b.drop_last()[i] != separator by {
            assert(b.drop_last()[i] == b[i]);
        }
        lemma_split_pair(a, b.drop_last(), separator);
        assert(b.drop_last().push(b.last()) =~= b);
        assert(split(s, separator) =~= seq![a, b]);
    }
}

/// Splits `s` at every occurrence of `separator`.
pub fn split_text(s: &str, separator: char) -> (res: Vec<String>)
    ensures
        views(res@) == split(s@, separator),
{
    let n: usize = s.unicode_len();
    let mut res: Vec<String> = Vec::new();
    let mut start: usize = 0;
    let mut i: usize = 0;
    assert(views(res@).push(s@.subrange(0, 0)) =~= split(s@.take(0), separator));
    while i < n
        invariant
            start <= i <= n,
            n == s@.len(),
            views(res@).push(s@.subrange(start as int, i as int)) == split(s@.take(i as int), separator),
        decreases n - i,
    {
        let ghost before = views(res@);
        let ghost piece = s@.subrange(start as int, i as int);
        assert(s@.take(i + 1).drop_last() =~= s@.take(i as int));
        assert(s@.take(i + 1).last() == s@[i as int]);
        assert(before.push(piece).drop_last() =~= before);
        if s.get_char(i) == separator {
            let next = s.substring_char(start, i).to_string();
            res.push(next);
            start = i + 1;
            assert(views(res@) =~= before.push(piece));
            assert(s@.subrange(start as int, i + 1) =~= Seq::empty());
        } else {
            assert(s@.subrange(start as int, i + 1) =~= piece.push(s@[i as int]));
        }
        i = i + 1;
    }
    assert(s@.take(n as int) =~= s@);
    let ghost before = views(res@);
    let last = s.substring_char(start, n).to_string();
    res.push(last);
    assert(views(res@) =~= before.push(s@.subrange(start as int, n as int)));
    res
}

/// The characters with the Unicode property `White_Space`.
pub open spec fn white_space(c: char) -> bool {
    ||| 0x9 <= c as u32 <= 0xd
    ||| c as u32 == 0x20
    ||| c as u32 == 0x85
    ||| c as u32 == 0xa0
    ||| c as u32 == 0x1680
    ||| 0x2000 <= c as u32 <= 0x200a
    ||| 0x2028 <= c as u32 <= 0x2029
    ||| c as u32 == 0x202f
    ||| c as u32 == 0x205f
    ||| c as u32 == 0x3000
}

/// Whether `c` is white space.
fn is_white_space(c: char) -> (res: bool)
    ensures
        res == white_space(c),
{
    let u: u32 = c as u32;
    (0x9 <= u && u <= 0xd) || u == 0x20 || u == 0x85 || u == 0xa0 || u == 0x1680 || (0x2000 <= u && u
        <= 0x200a) || (0x2028 <= u && u <= 0x2029) || u == 0x202f || u == 0x205f || u == 0x3000
}

/// `s` without its leading white space.
pub open spec fn trimmed_start(s: Text) -> Text
    decreases s.len(),
{
    if s.len() > 0 && white_space(s[0]) {
        trimmed_start(s.drop_first())
    } else {
        s
    }
}

/// `s` without its trailing white space.
pub open spec fn trimmed_end(s: Text) -> Text
    decreases s.len(),
{
    if s.len() > 0 && white_space(s.last()) {
        trimmed_end(s.drop_last())
    } else {
        s
    }
}

/// `s` without the white space around it.
pub open spec fn trimmed(s: Text) -> Text {
    trimmed_end(trimmed_start(s))
}

/// Cuts the white space off both ends of `s`.
pub fn trim_text(s: &str) -> (res: String)
    ensures
        res@ == trimmed(s@),
{
    let n: usize = s.unicode_len();
    let mut from: usize = 0;
    assert(s@.skip(0) =~= s@);
    while from < n && is_white_space(s.get_char(from))
        invariant
            from <= n,
            n == s@.len(),
            trimmed_start(s@.skip(from as int)) == trimmed_start(s@),
        decreases n - from,
    {
        assert(s@.skip(from as int).drop_first() =~= s@.skip(from + 1));
        from = from + 1;
    }
    let ghost rest = s@.skip(from as int);
    assert(trimmed_start(s@) == rest);
    let mut to: usize = n;
    assert(s@.subrange(from as int, n as int) =~= rest);
    while to > from && is_white_space(s.get_char(to - 1))
        invariant
            from <= to <= n,
            n == s@.len(),
            trimmed_end(s@.subrange(from as int, to as int)) == trimmed_end(rest),
        decreases to,
    {
        assert(s@.subrange(from as int, to as int).drop_last() =~= s@.subrange(from as int, to - 1));
        to = to - 1;
    }
    s.substring_char(from, to).to_string()
}

/// Filtering one element more.
pub proof fn lemma_filter_step<A>(s: Seq<A>, keep: spec_fn(A) -> bool, i: int)
    requires
        0 <= i < s.len(),
    ensures
        s.take(i + 1).filter(keep) == (if keep(s[i]) {
            s.take(i).filter(keep).push(s[i])
        } else {
            s.take(i).filter(keep)
        }),
{
    reveal(Seq::filter);
    assert(s.take(i + 1).drop_last() =~= s.take(i));
}

/// What a sequence contains after a push.
pub proof fn lemma_push_contains<A>(s: Seq<A>, x: A)
    ensures
        forall|y: A| s.push(x).contains(y) <==> s.contains(y) || y == x,
{
    assert forall|y: A| s.push(x).contains(y) <==> s.contains(y) || y == x by {
        if s.contains(y) {
            let i = choose|i: int| 0 <= i < s.len() && s[i] == y;
            assert(s.push(x)[i] == y);
        }
        if y == x {
            assert(s.push(x)[s.len() as int] == y);
        }
        if s.push(x).contains(y) && y != x {
            let i = choose|i: int| 0 <= i < s.push(x).len() && s.push(x)[i] == y;
            assert(s[i] == y);
        }
    }
}

/// What a filtered sequence contains.
pub proof fn lemma_filter_contains<A>(s: Seq<A>, keep: spec_fn(A) -> bool, x: A)
    ensures
        s.filter(keep).contains(x) <==> s.contains(x) && keep(x),
    decreases s.len(),
{
    reveal(Seq::filter);
    if s.len() > 0 {
        let r = s.drop_last();
        lemma_filter_contains(r, keep, x);
        lemma_push_contains(r, s.last());
        lemma_push_contains(r.filter(keep), s.last());
        assert(r.push(s.last()) =~= s);
    }
}

/// What two sequences contain together.
pub proof fn lemma_concat_contains<A>(a: Seq<A>, b: Seq<A>, x: A)
    ensures
        (a + b).contains(x) <==> a.contains(x) || b.contains(x),
{
    if a.contains(x) {
        let i = choose|i: int| 0 <= i < a.len() && a[i] == x;
        assert((a + b)[i] == x);
    }
    if b.contains(x) {
        let i = choose|i: int| 0 <= i < b.len() && b[i] == x;
        assert((a + b)[a.len() + i] == x);
    }
    if (a + b).contains(x) {
        let i = choose|i: int| 0 <= i < (a + b).len() && (a + b)[i] == x;
        if i < a.len() {
            assert(a[i] == x);
        } else {
            assert(b[i - a.len()] == x);
        }
    }
}

/// The pieces, put together with the separator between each two.
pub open spec fn joined(pieces: Seq<Text>, separator: char) -> Text
    decreases pieces.len(),
{
    if pieces.len() == 0 {
        Seq::empty()
    } else if pieces.len() == 1 {
        pieces[0]
    } else {
        joined(pieces.drop_last(), separator).push(separator) + pieces.last()
    }
}

/// Splitting loses nothing: the pieces hold no separator, and give the text back
/// when they are put together.
pub proof fn law_pieces_make_up_the_text(s: Text, separator: char)
    ensures
        split(s, separator).len() > 0,
        joined(split(s, separator), separator) == s,
        forall|i: int|
            0 <= i < split(s, separator).len() ==> !(#[trigger] split(s, separator)[i]).contains(
                separator,
            ),
    decreases s.len(),
{
    let pieces = split(s, separator);
    if s.len() == 0 {
        assert(joined(pieces, separator) =~= s);
    } else {
        let before = split(s.drop_last(), separator);
        law_pieces_make_up_the_text(s.drop_last(), separator);
        assert(s =~= s.drop_last().push(s.last()));
        if s.last() == separator {
            assert(pieces.drop_last() =~= before);
            assert(joined(pieces, separator) =~= s);
        } else {
            let last = before.last().push(s.last());
            assert(pieces.drop_last() =~= before.drop_last());
            assert(pieces.last() == last);
            lemma_push_contains(before.last(), s.last());
            assert(before[before.len() - 1] == before.last());
            assert(!last.contains(separator));
            assert(joined(pieces, separator) =~= s);
            assert forall|i: int| 0 <= i < pieces.len() implies !(#[trigger] pieces[i]).contains(
                separator,
            ) by {
                if i < pieces.len() - 1 {
                    assert(pieces[i] == before[i]);
                }
            }
        }
    }
}

/// Pieces without the separator that are put together are split into the same
/// pieces again.
pub proof fn law_joined_pieces_are_split(pieces: Seq<Text>, separator: char)
    requires
        pieces.len() > 0,
        forall|i: int| 0 <= i < pieces.len() ==> !(#[trigger] pieces[i]).contains(separator),
    ensures
        split(joined(pieces, separator), separator) == pieces,
    decreases pieces.len(),
{
    if pieces.len() == 1 {
        lemma_split_whole(pieces[0], separator);
        assert(seq![pieces[0]] =~= pieces);
    } else {
        let earlier = pieces.drop_last();
        assert forall|i: int| 0 <= i < earlier.len() implies !(#[trigger] earlier[i]).contains(
            separator,
        ) by {
            assert(earlier[i] == pieces[i]);
        }
        law_joined_pieces_are_split(earlier, separator);
        assert(pieces[pieces.len() - 1] == pieces.last());
        lemma_split_append(joined(earlier, separator), pieces.last(), separator);
        assert(earlier.push(pieces.last()) =~= pieces);
    }
}

proof fn lemma_split_append(a: Text, b: Text, separator: char)
    requires
        !b.contains(separator),
    ensures
        split(a.push(separator) + b, separator) == split(a, separator).push(b),
    decreases b.len(),
{
    let s = a.push(separator) + b;
    if b.len() == 0 {
        assert(s.drop_last() =~= a);
        assert(s.last() == separator);
        assert(b =~= Seq::empty());
    } else {
        assert(b.last() == b[b.len() - 1]);
        assert(s.last() == b.last());
        assert(s.drop_last() =~= a.push(separator) + b.drop_last());
        assert forall|i: int| 0 <= i < b.len() - 1 implies b.drop_last()[i] != separator by {
            assert(b.drop_last()[i] == b[i]);
        }
        lemma_split_append(a, b.drop_last(), separator);
        assert(b.drop_last().push(b.last()) =~= b);
        assert(split(s, separator) =~= split(a, separator).push(b));
    }
}

/// Blanks and line breaks are white space, and nothing that is printed in ASCII is.
pub proof fn law_white_space(c: char)
    ensures
        c == ' ' || c == '\t' || c == '\n' || c == '\r' ==> white_space(c),
        0x21 <= c as u32 <= 0x7e ==> !white_space(c),
{
}

/// Whether the text is white space all over.
pub open spec fn is_blank(s: Text) -> bool {
    forall|i: int| 0 <= i < s.len() ==> white_space(#[trigger] s[i])
}

/// Whether the text neither begins nor ends with white space.
pub open spec fn is_tight(s: Text) -> bool {
    s.len() > 0 ==> !white_space(s[0]) && !white_space(s[s.len() - 1])
}

proof fn lemma_trimmed_start(before: Text, s: Text)
    requires
        is_blank(before),
        s.len() > 0 ==> !white_space(s[0]),
    ensures
        trimmed_start(before + s) == s,
    decreases before.len(),
{
    let all = before + s;
    if before.len() > 0 {
        assert(all[0] == before[0]);
        assert(all.drop_first() =~= before.drop_first() + s);
        assert forall|i: int| 0 <= i < before.drop_first().len() implies white_space(
            #[trigger] before.drop_first()[i],
        ) by {
            assert(before.drop_first()[i] == before[i + 1]);
        }
        lemma_trimmed_start(before.drop_first(), s);
    } else {
        assert(all =~= s);
    }
}

proof fn lemma_trimmed_end(s: Text, after: Text)
    requires
        is_blank(after),
        s.len() > 0 ==> !white_space(s[s.len() - 1]),
    ensures
        trimmed_end(s + after) == s,
    decreases after.len(),
{
    let all = s + after;
    if after.len() > 0 {
        assert(all.last() == after[after.len() - 1]);
        assert(all.drop_last() =~= s + after.drop_last());
        assert forall|i: int| 0 <= i < after.drop_last().len() implies white_space(
            #[trigger] after.drop_last()[i],
        ) by {
            assert(after.drop_last()[i] == after[i]);
        }
        lemma_trimmed_end(s, after.drop_last());
    } else {
        assert(all =~= s);
        if s.len() > 0 {
            assert(s.last() == s[s.len() - 1]);
        }
    }
}

/// Trimming takes the white space off both ends of a text, and nothing else.
pub proof fn law_trimming_takes_off_the_ends(before: Text, s: Text, after: Text)
    requires
        is_blank(before),
        is_blank(after),
        is_tight(s),
    ensures
        trimmed(before + s + after) == s,
{
    if s.len() == 0 {
        let all = before + s + after;
        assert(all =~= (before + after) + s);
        assert forall|i: int| 0 <= i < (before + after).len() implies white_space(
            #[trigger] (before + after)[i],
        ) by {
            if i < before.len() {
                assert((before + after)[i] == before[i]);
            } else {
                assert((before + after)[i] == after[i - before.len()]);
            }
        }
        lemma_trimmed_start(before + after, s);
    } else {
        assert(before + s + after =~= before + (s + after));
        assert((s + after)[0] == s[0]);
        lemma_trimmed_start(before, s + after);
        lemma_trimmed_end(s, after);
    }
}

/// Every text is what trimming leaves of it, with white space on both sides.
pub proof fn law_trimming_leaves_the_rest(s: Text)
    ensures
        is_tight(trimmed(s)),
        exists|before: Text, after: Text|
            #![trigger before + trimmed(s) + after]
            is_blank(before) && is_blank(after) && s == before + trimmed(s) + after,
{
    let (before, rest) = lemma_cut_start(s);
    let after = lemma_cut_end(rest);
    assert(s =~= before + trimmed(s) + after);
    if trimmed(s).len() > 0 {
        assert(trimmed(s)[0] == rest[0]);
    }
}

proof fn lemma_cut_start(s: Text) -> (res: (Text, Text))
    ensures
        is_blank(res.0),
        res.1 == trimmed_start(s),
        s == res.0 + res.1,
        res.1.len() > 0 ==> !white_space(res.1[0]),
    decreases s.len(),
{
    if s.len() > 0 && white_space(s[0]) {
        let (before, rest) = lemma_cut_start(s.drop_first());
        let more = seq![s[0]] + before;
        assert forall|i: int| 0 <= i < more.len() implies white_space(#[trigger] more[i]) by {
            if i > 0 {
                assert(more[i] == before[i - 1]);
            }
        }
        let tail = s.drop_first();
        assert(tail == before + rest);
        assert(s =~= seq![s[0]] + tail);
        assert(seq![s[0]] + (before + rest) =~= more + rest);
        (more, rest)
    } else {
        assert(s =~= Seq::<char>::empty() + s);
        (Seq::empty(), s)
    }
}

proof fn lemma_cut_end(s: Text) -> (after: Text)
    ensures
        is_blank(after),
        s == trimmed_end(s) + after,
        trimmed_end(s).len() > 0 ==> !white_space(trimmed_end(s)[trimmed_end(s).len() - 1]),
    decreases s.len(),
{
    if s.len() > 0 && white_space(s.last()) {
        let after = lemma_cut_end(s.drop_last());
        let more = after.push(s.last());
        assert forall|i: int| 0 <= i < more.len() implies white_space(#[trigger] more[i]) by {
            if i < after.len() {
                assert(more[i] == after[i]);
            }
        }
        let head = s.drop_last();
        assert(head == trimmed_end(head) + after);
        assert(s =~= head.push(s.last()));
        assert((trimmed_end(head) + after).push(s.last()) =~= trimmed_end(head) + more);
        more
    } else {
        assert(s =~= s + Seq::<char>::empty());
        if s.len() > 0 {
            assert(s.last() == s[s.len() - 1]);
        }
        Seq::empty()
    }
}

/// The number that decimal digits stand for.
pub open spec fn number_of(digits: Text) -> int
    decreases digits.len(),
{
    if digits.len() == 0 {
        0
    } else {
        number_of(digits.drop_last()) * 10 + (digits.last() as int - '0' as int)
    }
}

proof fn lemma_digit(d: nat)
    requires
        d < 10,
    ensures
        digit(d).len() == 1,
        digit(d)[0] as int == '0' as int + d,
{
    reveal_strlit("0");
    reveal_strlit("1");
    reveal_strlit("2");
    reveal_strlit("3");
    reveal_strlit("4");
    reveal_strlit("5");
    reveal_strlit("6");
    reveal_strlit("7");
    reveal_strlit("8");
    reveal_strlit("9");
}

/// The decimal notation of a number is made of digits that stand for that number,
/// without leading zeros.
pub proof fn law_decimal_stands_for_the_number(n: nat)
    ensures
        decimal(n).len() > 0,
        number_of(decimal(n)) == n,
        forall|i: int|
            0 <= i < decimal(n).len() ==> '0' as int <= (#[trigger] decimal(n)[i]) as int <= '9' as int,
        decimal(n).len() > 1 ==> decimal(n)[0] != '0',
        n > 0 ==> decimal(n)[0] != '0',
    decreases n,
{
    if n < 10 {
        lemma_digit(n);
        let t = digit(n);
        assert(t.drop_last() =~= Seq::empty());
        assert(t.last() == t[0]);
        assert(number_of(t.drop_last()) == 0);
        assert(number_of(t) == n);
    } else {
        law_decimal_stands_for_the_number(n / 10);
        lemma_digit(n % 10);
        let t = decimal(n);
        let high = decimal(n / 10);
        assert(t.drop_last() =~= high);
        assert(t.last() == digit(n % 10)[0]);
        assert(t[0] == high[0]);
        assert forall|i: int| 0 <= i < t.len() implies '0' as int <= (#[trigger] t[i]) as int
            <= '9' as int by {
            if i < high.len() {
                assert(t[i] == high[i]);
            }
        }
    }
}

/// A negative number has a minus sign before the notation of its magnitude.
pub proof fn law_signed_decimal(i: int)
    ensures
        i >= 0 ==> signed_decimal(i) == decimal(i as nat),
        i < 0 ==> signed_decimal(i) == seq!['-'] + decimal((-i) as nat),
{
    reveal_strlit("-");
    assert("-"@ =~= seq!['-']);
}

proof fn lemma_encoding_concat(a: Text, b: Text)
    ensures
        encode_utf8(a + b) == encode_utf8(a) + encode_utf8(b),
    decreases a.len(),
{
    if a.len() == 0 {
        assert(a + b =~= b);
        assert(encode_utf8(a) + encode_utf8(b) =~= encode_utf8(b));
    } else {
        assert((a + b)[0] == a[0]);
        assert((a + b).drop_first() =~= a.drop_first() + b);
        lemma_encoding_concat(a.drop_first(), b);
        assert(encode_utf8(a + b) =~= encode_utf8(a) + encode_utf8(b));
    }
}

proof fn lemma_encoding_not_empty(b: Text)
    requires
        b.len() > 0,
    ensures
        encode_utf8(b).len() > 0,
{
    lemma_encoding_injective(b, Seq::empty());
    if encode_utf8(b).len() == 0 {
        assert(encode_utf8(b) =~= encode_utf8(Seq::empty()));
    }
}

/// A text comes before every longer one that begins with it.
pub proof fn law_prefix_comes_first(a: Text, b: Text)
    requires
        b.len() > 0,
    ensures
        text_precedes(a, a + b),
        !text_precedes(a + b, a),
{
    lemma_encoding_concat(a, b);
    lemma_encoding_not_empty(b);
    assert(splits_at(encode_utf8(a), encode_utf8(a + b), encode_utf8(a).len() as int));
    lemma_text_order(a, a + b, a);
}

/// Two texts are ordered by the first characters in which they differ, for
/// characters of ASCII.
pub proof fn law_first_difference_orders(p: Text, c: char, x: Text, d: char, y: Text)
    requires
        c as u32 <= 0x7f,
        d as u32 <= 0x7f,
        (c as u32) < (d as u32),
    ensures
        text_precedes(p + seq![c] + x, p + seq![d] + y),
        !text_precedes(p + seq![d] + y, p + seq![c] + x),
{
    lemma_encoding_concat(p + seq![c], x);
    lemma_encoding_concat(p, seq![c]);
    lemma_encoding_concat(p + seq![d], y);
    lemma_encoding_concat(p, seq![d]);
    lemma_ascii(c);
    lemma_ascii(d);
    let a = encode_utf8(p + seq![c] + x);
    let b = encode_utf8(p + seq![d] + y);
    assert(splits_at(a, b, encode_utf8(p).len() as int));
    lemma_text_order(p + seq![c] + x, p + seq![d] + y, p);
}

proof fn lemma_ascii(c: char)
    requires
        c as u32 <= 0x7f,
    ensures
        encode_utf8(seq![c]).len() == 1,
        encode_utf8(seq![c])[0] == c as u32,
{
    let s = seq![c];
    assert(is_ascii_chars(s));
    is_ascii_chars_encode_utf8(s);
    is_ascii_chars_nat_bound(s);
}

/// What the calls on texts hand out is what the laws on it speak of.
pub proof fn law_calls_on_texts(
    a: &str,
    b: &str,
    is_same: bool,
    is_before: bool,
    n: u64,
    digits: String,
    i: i64,
    number: String,
    c: char,
    pieces: Vec<String>,
    trim: String,
    o: &Option<String>,
    p: &Option<String>,
    same_option: bool,
)
    requires
        call_ensures(same_text, (a, b), is_same),
        call_ensures(text_before, (a, b), is_before),
        call_ensures(decimal_text, (n,), digits),
        call_ensures(signed_decimal_text, (i,), number),
        call_ensures(split_text, (a, c), pieces),
        call_ensures(trim_text, (a,), trim),
        call_ensures(same_optional_text, (o, p), same_option),
    ensures
        is_same <==> a@ == b@,
        is_before <==> text_precedes(a@, b@),
        digits@ == decimal(n as nat),
        number@ == signed_decimal(i as int),
        views(pieces@) == split(a@, c),
        trim@ == trimmed(a@),
        same_option <==> view_opt(*o) == view_opt(*p),
{
}

} // verus!
