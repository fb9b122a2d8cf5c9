//! Strings and the few operations on them that request building needs.

use vstd::prelude::*;
use vstd::string::{StrSliceExecFns, StringExecFns};
use vstd::utf8::*;

verus! {

/// A value that a builder accepts as text: a string slice or a `String`.
pub trait IntoText: Sized {
    /// The characters of the text.
    spec fn text(&self) -> Seq<char>;

    /// The text as an owned `String`.
    fn into_text(self) -> (owned: String)
        ensures
            owned@ == self.text(),
    ;
}

impl<'a> IntoText for &'a str {
    open spec fn text(&self) -> Seq<char> {
        self@
    }

    fn into_text(self) -> (owned: String) {
        self.to_owned()
    }
}

impl IntoText for String {
    open spec fn text(&self) -> Seq<char> {
        self@
    }

    fn into_text(self) -> (owned: String) {
        self
    }
}

impl<'a> IntoText for &'a String {
    open spec fn text(&self) -> Seq<char> {
        self@
    }

    fn into_text(self) -> (owned: String) {
        self.clone()
    }
}

/// The characters of an optional string slice.
pub open spec fn optional_str(text: Option<&str>) -> Option<Seq<char>> {
    match text {
        Some(text) => Some(text@),
        None => None,
    }
}

/// The characters of an optional string.
pub open spec fn optional_string(text: Option<String>) -> Option<Seq<char>> {
    match text {
        Some(text) => Some(text@),
        None => None,
    }
}

/// The characters of each of a list of string slices.
pub open spec fn str_views(items: Seq<&str>) -> Seq<Seq<char>> {
    items.map_values(|item: &str| item@)
}

/// The texts of a list of values.
pub open spec fn texts<S: IntoText>(items: Seq<S>) -> Seq<Seq<char>> {
    items.map_values(|item: S| item.text())
}

/// The characters of each string of a list.
pub open spec fn views(items: Seq<String>) -> Seq<Seq<char>> {
    items.map_values(|item: String| item@)
}

/// `parts` with `separator` between each two neighbours.
pub open spec fn joined(parts: Seq<Seq<char>>, separator: Seq<char>) -> Seq<char>
    decreases parts.len(),
{
    if parts.len() == 0 {
        Seq::empty()
    } else if parts.len() == 1 {
        parts[0]
    } else {
        joined(parts.drop_last(), separator) + separator + parts.last()
    }
}

/// The decimal digit `d`, for `d` below ten.
pub open spec fn digit(d: nat) -> char {
    (48 + d) as char
}

/// `n` written in decimal, without leading zeros.
pub open spec fn decimal(n: nat) -> Seq<char>
    decreases n,
{
    if n < 10 {
        seq![digit(n)]
    } else {
        decimal(n / 10).push(digit(n % 10))
    }
}

/// `n` written in decimal, with a minus sign in front when it is negative.
pub open spec fn signed_decimal(n: int) -> Seq<char> {
    if n < 0 {
        seq!['-'] + decimal((-n) as nat)
    } else {
        decimal(n as nat)
    }
}

/// Distinct natural numbers are written differently.
pub proof fn law_decimal_identifies(n: nat, m: nat)
    ensures
        decimal(n) == decimal(m) <==> n == m,
    decreases n,
{
    lemma_decimal_digits(n);
    lemma_decimal_digits(m);
    if decimal(n) == decimal(m) {
        assert(decimal(n).last() == digit(n % 10));
        assert(decimal(m).last() == digit(m % 10));
        assert(n % 10 == m % 10);
        if n < 10 && m < 10 {
        } else if n < 10 {
            lemma_decimal_digits(m / 10);
            assert(decimal(m).len() > 1);
        } else if m < 10 {
            lemma_decimal_digits(n / 10);
            assert(decimal(n).len() > 1);
        } else {
            assert(decimal(n / 10) =~= decimal(n).drop_last());
            assert(decimal(m / 10) =~= decimal(m).drop_last());
            law_decimal_identifies(n / 10, m / 10);
        }
    }
}

/// A number is written with at least one digit, and the first is no minus
/// sign.
proof fn lemma_decimal_digits(n: nat)
    ensures
        decimal(n).len() > 0,
        decimal(n)[0] != '-',
    decreases n,
{
    if n >= 10 {
        lemma_decimal_digits(n / 10);
    }
}

/// Distinct integers are written differently.
pub proof fn law_signed_decimal_identifies(n: int, m: int)
    ensures
        signed_decimal(n) == signed_decimal(m) <==> n == m,
{
    if signed_decimal(n) == signed_decimal(m) {
        let (p, q) = (if n < 0 { -n } else { n }, if m < 0 { -m } else { m });
        lemma_decimal_digits(p as nat);
        lemma_decimal_digits(q as nat);
        law_decimal_identifies(p as nat, q as nat);
        if n < 0 && m < 0 {
            assert(signed_decimal(n).skip(1) =~= decimal(p as nat));
            assert(signed_decimal(m).skip(1) =~= decimal(q as nat));
        } else if n < 0 {
            assert(signed_decimal(n)[0] == '-');
        } else if m < 0 {
            assert(signed_decimal(m)[0] == '-');
        }
    }
}

/// `first` followed by `second`.
pub fn concat_two(first: &str, second: &str) -> (whole: String)
    ensures
        whole@ == first@ + second@,
{
    let mut whole = first.to_owned();
    whole.append(second);
    whole
}

/// `first` followed by `second` followed by `third`.
pub fn concat_three(first: &str, second: &str, third: &str) -> (whole: String)
    ensures
        whole@ == first@ + second@ + third@,
{
    let mut whole = first.to_owned();
    whole.append(second);
    whole.append(third);
    whole
}

/// The strings of `parts`, with `separator` between each two neighbours.
pub fn join(parts: &[String], separator: &str) -> (whole: String)
    ensures
        whole@ == joined(views(parts@), separator@),
{
    let mut whole = String::new();
    let ghost all = views(parts@);
    for i in 0..parts.len()
        invariant
            all == views(parts@),
            whole@ == joined(all.take(i as int), separator@),
    {
        if i > 0 {
            whole.append(separator);
        }
        whole.append(parts[i].as_str());
        assert(all.take(i + 1).drop_last() =~= all.take(i as int));
        assert(all.take(i as int) =~= Seq::empty() || i > 0);
    }
    assert(all.take(parts.len() as int) =~= all);
    whole
}

/// The texts of `items` as owned strings.
pub fn owned_texts<S: IntoText>(items: Vec<S>) -> (owned: Vec<String>)
    ensures
        views(owned@) == texts(items@),
{
    let mut owned: Vec<String> = Vec::new();
    let ghost all = items@;
    for item in it: items
        invariant
            it.seq() == all,
            views(owned@) == texts(all).take(it.index() as int),
    {
        let ghost before = owned@;
        let ghost i = it.index() as int;
        let text = item.into_text();
        owned.push(text);
        assert(views(owned@) =~= views(before).push(text@));
        assert(texts(all).take(i + 1) =~= texts(all).take(i).push(text@));
    }
    assert(texts(all).take(all.len() as int) =~= texts(all));
    owned
}

/// The string slices of `items` as owned strings.
pub fn owned_strs(items: &[&str]) -> (owned: Vec<String>)
    ensures
        views(owned@) == str_views(items@),
{
    let mut owned: Vec<String> = Vec::new();
    let ghost all = str_views(items@);
    for i in 0..items.len()
        invariant
            all == str_views(items@),
            views(owned@) == all.take(i as int),
    {
        let ghost before = owned@;
        let text = items[i].to_owned();
        owned.push(text);
        assert(views(owned@) =~= views(before).push(text@));
        assert(all.take(i + 1) =~= all.take(i as int).push(text@));
    }
    assert(all.take(items.len() as int) =~= all);
    owned
}

/// A list of texts that a builder accepts: a vector, an array or a slice.
pub trait IntoTexts: Sized {
    /// The characters of each text.
    spec fn all_texts(&self) -> Seq<Seq<char>>;

    /// The texts as owned strings.
    fn into_texts(self) -> (owned: Vec<String>)
        ensures
            views(owned@) == self.all_texts(),
    ;
}

impl<S: IntoText> IntoTexts for Vec<S> {
    open spec fn all_texts(&self) -> Seq<Seq<char>> {
        texts(self@)
    }

    fn into_texts(self) -> (owned: Vec<String>) {
        owned_texts(self)
    }
}

impl<'a, const N: usize> IntoTexts for [&'a str; N] {
    open spec fn all_texts(&self) -> Seq<Seq<char>> {
        str_views(self@)
    }

    fn into_texts(self) -> (owned: Vec<String>) {
        owned_strs(&self)
    }
}

impl<'a, 'b> IntoTexts for &'a [&'b str] {
    open spec fn all_texts(&self) -> Seq<Seq<char>> {
        str_views(self@)
    }

    fn into_texts(self) -> (owned: Vec<String>) {
        owned_strs(self)
    }
}

/// Whether two string slices hold the same characters.
pub fn same_text(left: &str, right: &str) -> (same: bool)
    ensures
        same == (left@ == right@),
{
    let a = left.as_bytes();
    let b = right.as_bytes();
    proof {
        encode_utf8_decode_utf8(left@);
        encode_utf8_decode_utf8(right@);
    }
    if a.len() != b.len() {
        return false;
    }
    for i in 0..a.len()
        invariant
            a.len() == b.len(),
            a@ == encode_utf8(left@),
            b@ == encode_utf8(right@),
            forall|j: int| 0 <= j < i ==> a@[j] == b@[j],
    {
        if a[i] != b[i] {
            return false;
        }
    }
    assert(a@ =~= b@);
    true
}

/// Whether `text` begins with `prefix`.
pub fn starts_with(text: &str, prefix: &str) -> (starts: bool)
    ensures
        starts == prefix@.is_prefix_of(text@),
{
    let n = prefix.unicode_len();
    if text.unicode_len() < n {
        return false;
    }
    for i in 0..n
        invariant
            n == prefix@.len(),
            n <= text@.len(),
            forall|j: int| 0 <= j < i ==> prefix@[j] == text@[j],
    {
        if prefix.get_char(i) != text.get_char(i) {
            return false;
        }
    }
    assert(prefix@ =~= text@.take(n as int));
    true
}

/// The decimal digit `d`.
fn digit_text(d: u64) -> (text: &'static str)
    requires
        d < 10,
    ensures
        text@ == seq![digit(d as nat)],
{
    proof {
        reveal_strlit("0");
        reveal_strlit("1");
        reveal_strlit("2");
        reveal_strlit("3");
        reveal_strlit("4");
        reveal_strlit("5");
        reveal_strlit("6");
        reveal_strlit("7");
        reveal_strlit("8");
        reveal_strlit("9");
    }
    match d {
        0 => "0",
        1 => "1",
        2 => "2",
        3 => "3",
        4 => "4",
        5 => "5",
        6 => "6",
        7 => "7",
        8 => "8",
        _ => "9",
    }
}

/// `n` in decimal.
pub fn unsigned_text(n: u64) -> (text: String)
    ensures
        text@ == decimal(n as nat),
    decreases n,
{
    if n < 10 {
        digit_text(n).to_owned()
    } else {
        let mut text = unsigned_text(n / 10);
        text.append(digit_text(n % 10));
        assert(decimal((n / 10) as nat) + seq![digit((n % 10) as nat)] =~= decimal(
            (n / 10) as nat,
        ).push(digit((n % 10) as nat)));
        text
    }
}

/// `n` in decimal, with a minus sign when it is negative.
pub fn signed_text(n: i64) -> (text: String)
    ensures
        text@ == signed_decimal(n as int),
{
    if n < 0 {
        proof {
            reveal_strlit("-");
        }
        let magnitude = if n == i64::MIN {
            0x8000_0000_0000_0000u64
        } else {
            (-n) as u64
        };
        let mut text = "-".to_owned();
        text.append(unsigned_text(magnitude).as_str());
        assert("-"@ =~= seq!['-']);
        text
    } else {
        unsigned_text(n as u64)
    }
}

/// A string slice, a string and a reference to one are taken as they are.
pub proof fn law_text_is_taken_as_it_is(slice: &str, owned: String)
    ensures
        slice.text() == slice@,
        owned.text() == owned@,
        (&owned).text() == owned@,
{
}

/// A list of texts is taken in full and in order.
pub proof fn law_lists_are_taken_in_full<S: IntoText, const N: usize>(
    vector: Vec<S>,
    array: [&str; N],
    slice: &[&str],
)
    ensures
        vector.all_texts().len() == vector@.len(),
        forall|i: int|
            0 <= i < vector@.len() ==> #[trigger] vector.all_texts()[i] == vector@[i].text(),
        array.all_texts().len() == array@.len(),
        forall|i: int| 0 <= i < array@.len() ==> #[trigger] array.all_texts()[i] == array@[i]@,
        slice.all_texts().len() == slice@.len(),
        forall|i: int| 0 <= i < slice@.len() ==> #[trigger] slice.all_texts()[i] == slice@[i]@,
{
}

/// The texts of a list are those of its items, one for each and in order.
pub proof fn law_views_are_those_of_the_items<S: IntoText>(
    strings: Seq<String>,
    slices: Seq<&str>,
    items: Seq<S>,
)
    ensures
        views(strings).len() == strings.len(),
        forall|i: int| 0 <= i < strings.len() ==> #[trigger] views(strings)[i] == strings[i]@,
        str_views(slices).len() == slices.len(),
        forall|i: int| 0 <= i < slices.len() ==> #[trigger] str_views(slices)[i] == slices[i]@,
        texts(items).len() == items.len(),
        forall|i: int| 0 <= i < items.len() ==> #[trigger] texts(items)[i] == items[i].text(),
{
}

/// An optional text is there exactly when its string is, with its characters.
pub proof fn law_optional_texts_are_kept(owned: String, slice: &str)
    ensures
        optional_string(Some(owned)) == Some(owned@),
        optional_string(None) is None,
        optional_str(Some(slice)) == Some(slice@),
        optional_str(None) is None,
{
}

/// Joining leaves one part as it is, and two lists are joined by joining each
/// and putting the separator between them. So every part stands in the whole,
/// in order, with one separator between each two.
pub proof fn law_join_puts_a_separator_between(
    first: Seq<Seq<char>>,
    second: Seq<Seq<char>>,
    part: Seq<char>,
    separator: Seq<char>,
)
    ensures
        joined(Seq::empty(), separator) == Seq::<char>::empty(),
        joined(seq![part], separator) == part,
        first.len() > 0 && second.len() > 0 ==> joined(first + second, separator) == joined(
            first,
            separator,
        ) + separator + joined(second, separator),
    decreases second.len(),
{
    if first.len() > 0 && second.len() == 1 {
        assert((first + second).drop_last() =~= first);
    } else if first.len() > 0 && second.len() > 1 {
        law_join_puts_a_separator_between(first, second.drop_last(), part, separator);
        assert((first + second).drop_last() =~= first + second.drop_last());
        assert(joined(first + second, separator) =~= joined(first, separator) + separator + joined(
            second,
            separator,
        ));
    }
}

/// The number that a list of decimal digits stands for.
pub open spec fn read_decimal(text: Seq<char>) -> int
    decreases text.len(),
{
    if text.len() == 0 {
        0
    } else {
        10 * read_decimal(text.drop_last()) + (text.last() as int - '0' as int)
    }
}

/// A number is written in digits that stand for it, without leading zeros.
pub proof fn law_decimal_reads_back(n: nat)
    ensures
        read_decimal(decimal(n)) == n,
        decimal(n).len() > 0,
        forall|i: int| 0 <= i < decimal(n).len() ==> '0' <= #[trigger] decimal(n)[i] <= '9',
        n > 0 ==> decimal(n)[0] != '0',
    decreases n,
{
    if n < 10 {
        assert(decimal(n).drop_last() =~= Seq::empty());
        assert(read_decimal(Seq::empty()) == 0);
    } else {
        law_decimal_reads_back(n / 10);
        assert(decimal(n).drop_last() =~= decimal(n / 10));
    }
}

/// A negative integer is written as a minus sign and its magnitude, any other
/// as the natural number that it is.
pub proof fn law_signed_decimal_reads_back(n: int)
    ensures
        n >= 0 ==> read_decimal(signed_decimal(n)) == n && signed_decimal(n)[0] != '-',
        n < 0 ==> signed_decimal(n)[0] == '-' && read_decimal(signed_decimal(n).skip(1)) == -n,
{
    if n >= 0 {
        law_decimal_reads_back(n as nat);
        assert('0' <= decimal(n as nat)[0] <= '9');
    } else {
        law_decimal_reads_back((-n) as nat);
        assert(signed_decimal(n).skip(1) =~= decimal((-n) as nat));
    }
}

} // verus!
