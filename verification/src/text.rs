//! Text as sequences of characters: comparison, trimming, splitting and the
//! decimal form of numbers.
use vstd::prelude::*;

verus! {

/// The views of a sequence of items, one for one.
pub open spec fn views<T: View>(items: Seq<T>) -> Seq<T::V> {
    items.map_values(|item: T| item@)
}

/// The view of an optional item.
pub open spec fn view_of<T: View>(item: Option<T>) -> Option<T::V> {
    match item {
        Some(value) => Some(value@),
        None => None,
    }
}

pub proof fn lemma_views_push<T: View>(items: Seq<T>, item: T)
    ensures
        views(items.push(item)) == views(items).push(item@),
{
    assert(views(items.push(item)) =~= views(items).push(item@));
}

/// `String::push` appends one character.
pub assume_specification[ std::string::String::push ](string: &mut std::string::String, ch: char)
    ensures
        final(string)@ == old(string)@.push(ch),
;

/// `str::eq` holds exactly when both hold the same characters.
pub assume_specification[ <str as PartialEq>::eq ](left: &str, right: &str) -> (equal: bool)
    ensures
        equal == (left@ == right@),
;

/// The characters of a text.
pub fn chars_of(text: &str) -> (chars: Vec<char>)
    ensures
        chars@ == text@,
{
    let mut chars: Vec<char> = Vec::new();
    for c in iter: text.chars()
        invariant
            chars@ == iter.seq().take(iter.index() as int),
            iter.seq() == text@,
    {
        chars.push(c);
    }
    chars
}

/// The text made of the characters from `from` up to `to`.
pub fn text_between(chars: &Vec<char>, from: usize, to: usize) -> (text: String)
    requires
        from <= to <= chars.len(),
    ensures
        text@ == chars@.subrange(from as int, to as int),
{
    let mut text = String::new();
    let mut i: usize = from;
    while i < to
        invariant
            from <= i <= to <= chars.len(),
            text@ == chars@.subrange(from as int, i as int),
        decreases to - i,
    {
        text.push(chars[i]);
        i = i + 1;
        assert(text@ =~= chars@.subrange(from as int, i as int));
    }
    text
}

pub fn text_of(chars: &Vec<char>) -> (text: String)
    ensures
        text@ == chars@,
{
    let text = text_between(chars, 0, chars.len());
    assert(text@ =~= chars@);
    text
}

/// Whether two texts hold the same characters.
pub fn same(left: &str, right: &str) -> (r: bool)
    ensures
        r == (left@ == right@),
{
    str::eq(left, right)
}

/// Whether one of the texts is `text`.
pub fn holds_text(texts: &Vec<String>, text: &str) -> (r: bool)
    ensures
        r == views(texts@).contains(text@),
{
    let mut i: usize = 0;
    while i < texts.len()
        invariant
            i <= texts.len(),
            forall|j: int| 0 <= j < i ==> #[trigger] texts@[j]@ != text@,
        decreases texts.len() - i,
    {
        if same(texts[i].as_str(), text) {
            assert(views(texts@)[i as int] == text@);
            return true;
        }
        i = i + 1;
    }
    assert(!views(texts@).contains(text@)) by {
        if views(texts@).contains(text@) {
            let j = choose|j: int| 0 <= j < views(texts@).len() && views(texts@)[j] == text@;
            assert(texts@[j]@ == text@);
        }
    }
    false
}

/// A copy of a list of texts.
pub fn copy_texts(texts: &Vec<String>) -> (copy: Vec<String>)
    ensures
        views(copy@) == views(texts@),
{
    let mut copy: Vec<String> = Vec::new();
    let mut i: usize = 0;
    while i < texts.len()
        invariant
            i <= texts.len(),
            views(copy@) == views(texts@.take(i as int)),
        decreases texts.len() - i,
    {
        proof {
            lemma_views_push(copy@, texts@[i as int]);
            lemma_views_push(texts@.take(i as int), texts@[i as int]);
            assert(texts@.take(i + 1) =~= texts@.take(i as int).push(texts@[i as int]));
        }
        copy.push(texts[i].clone());
        i = i + 1;
    }
    assert(texts@.take(i as int) =~= texts@);
    copy
}

/// The items whose flags are set, in order.
pub open spec fn flagged<T>(items: Seq<T>, flags: Seq<bool>) -> Seq<T>
    decreases items.len(),
{
    if items.len() == 0 {
        items
    } else if flags[items.len() - 1] {
        flagged(items.drop_last(), flags).push(items.last())
    } else {
        flagged(items.drop_last(), flags)
    }
}

pub proof fn lemma_flagged_is_filter<T>(items: Seq<T>, flags: Seq<bool>, keep: spec_fn(T) -> bool)
    requires
        flags.len() >= items.len(),
        forall|i: int| 0 <= i < items.len() ==> #[trigger] flags[i] == keep(items[i]),
    ensures
        flagged(items, flags) == items.filter(keep),
    decreases items.len(),
{
    reveal(Seq::filter);
    if items.len() > 0 {
        let last = items.len() - 1;
        assert(flags[last] == keep(items[last]));
        lemma_flagged_is_filter(items.drop_last(), flags, keep);
    }
}

/// Keeps the items whose flags are set.
pub fn retain_flagged<T>(items: Vec<T>, flags: &Vec<bool>) -> (kept: Vec<T>)
    requires
        flags@.len() == items@.len(),
    ensures
        kept@ == flagged(items@, flags@),
{
    let ghost all = items@;
    let mut left = items;
    let mut kept: Vec<T> = Vec::new();
    let n: usize = flags.len();
    let mut i: usize = 0;
    assert(left@ =~= all.skip(0));
    while left.len() > 0
        invariant
            i + left@.len() == all.len(),
            n == flags@.len(),
            flags@.len() == all.len(),
            left@ == all.skip(i as int),
            kept@ == flagged(all.take(i as int), flags@),
        decreases left@.len(),
    {
        let item = left.remove(0);
        proof {
            assert(item == all[i as int]);
            assert(all.take(i + 1).drop_last() =~= all.take(i as int));
            assert(all.take(i + 1).last() == item);
            assert(left@ =~= all.skip(i + 1));
        }
        if flags[i] {
            kept.push(item);
        }
        i = i + 1;
    }
    assert(all.take(i as int) =~= all);
    kept
}

/// A copy of a list whose items keep their views when cloned.
pub fn copy_list<T: View + Clone>(items: &Vec<T>) -> (copy: Vec<T>)
    requires
        forall|a: T, b: T| #[trigger] cloned(a, b) ==> a@ == b@,
    ensures
        views(copy@) == views(items@),
{
    let copy = items.clone();
    assert(views(copy@) =~= views(items@)) by {
        assert forall|i: int| 0 <= i < copy@.len() implies views(copy@)[i] == views(items@)[i] by {
            assert(cloned(items@[i], copy@[i]));
        }
    }
    copy
}

/// A copy of an optional item that keeps its view when cloned.
pub fn copy_option<T: View + Clone>(item: &Option<T>) -> (copy: Option<T>)
    requires
        forall|a: T, b: T| #[trigger] cloned(a, b) ==> a@ == b@,
    ensures
        view_of(copy) == view_of(*item),
{
    match item {
        Some(value) => {
            let copy = value.clone();
            assert(cloned(*value, copy));
            Some(copy)
        },
        None => None,
    }
}

// ---------------------------------------------------------------------------
// Order

/// Outcome of comparing two values of an ordered kind.
#[derive(Clone, Copy, Debug, PartialEq, Eq, Structural)]
pub enum Order {
    Less,
    Equal,
    Greater,
}

impl Order {
    pub open spec fn reversed(self) -> Order {
        match self {
            Order::Less => Order::Greater,
            Order::Equal => Order::Equal,
            Order::Greater => Order::Less,
        }
    }
}

/// Dictionary order by code point.
pub open spec fn text_order(left: Seq<char>, right: Seq<char>) -> Order
    decreases left.len(),
{
    if left.len() == 0 {
        if right.len() == 0 {
            Order::Equal
        } else {
            Order::Less
        }
    } else if right.len() == 0 {
        Order::Greater
    } else if left[0] < right[0] {
        Order::Less
    } else if left[0] > right[0] {
        Order::Greater
    } else {
        text_order(left.skip(1), right.skip(1))
    }
}

/// Two texts are in equal places exactly when they are the same text.
pub proof fn law_text_order_equal(left: Seq<char>, right: Seq<char>)
    ensures
        (text_order(left, right) is Equal) <==> left == right,
    decreases left.len(),
{
    if left.len() > 0 && right.len() > 0 {
        law_text_order_equal(left.skip(1), right.skip(1));
        if left[0] == right[0] && left.skip(1) == right.skip(1) {
            assert(left =~= seq![left[0]] + left.skip(1));
            assert(right =~= seq![right[0]] + right.skip(1));
        }
    } else {
        assert(left == right <==> left.len() == right.len() && left =~= right);
    }
}

/// Swapping the two texts reverses the outcome.
pub proof fn law_text_order_reverses(left: Seq<char>, right: Seq<char>)
    ensures
        text_order(right, left) == text_order(left, right).reversed(),
    decreases left.len(),
{
    if left.len() > 0 && right.len() > 0 {
        law_text_order_reverses(left.skip(1), right.skip(1));
    }
}

/// Being no later than another text carries over a third one.
pub proof fn law_text_order_transitive(a: Seq<char>, b: Seq<char>, c: Seq<char>)
    requires
        !(text_order(a, b) is Greater),
        !(text_order(b, c) is Greater),
    ensures
        !(text_order(a, c) is Greater),
        text_order(a, b) is Less || text_order(b, c) is Less ==> text_order(a, c) is Less,
    decreases a.len(),
{
    if a.len() > 0 && b.len() > 0 && c.len() > 0 {
        if a[0] == b[0] && b[0] == c[0] {
            law_text_order_transitive(a.skip(1), b.skip(1), c.skip(1));
        }
    }
}

pub fn order(left: &str, right: &str) -> (r: Order)
    ensures
        r == text_order(left@, right@),
{
    let a = chars_of(left);
    let b = chars_of(right);
    let mut i: usize = 0;
    assert(a@.skip(0) =~= a@);
    assert(b@.skip(0) =~= b@);
    while i < a.len() && i < b.len()
        invariant
            i <= a.len(),
            i <= b.len(),
            a@ == left@,
            b@ == right@,
            text_order(left@, right@) == text_order(a@.skip(i as int), b@.skip(i as int)),
        decreases a.len() - i,
    {
        let x = a[i];
        let y = b[i];
        proof {
            assert(a@.skip(i as int)[0] == a@[i as int]);
            assert(b@.skip(i as int)[0] == b@[i as int]);
            assert(a@.skip(i as int).skip(1) =~= a@.skip(i + 1));
            assert(b@.skip(i as int).skip(1) =~= b@.skip(i + 1));
        }
        if x < y {
            return Order::Less;
        }
        if x > y {
            return Order::Greater;
        }
        i = i + 1;
    }
    if a.len() == b.len() {
        Order::Equal
    } else if i == a.len() {
        Order::Less
    } else {
        Order::Greater
    }
}

/// Texts in dictionary order, none of them twice.
pub open spec fn ascending(texts: Seq<Seq<char>>) -> bool {
    forall|i: int, j: int|
        0 <= i < j < texts.len() ==> text_order(#[trigger] texts[i], #[trigger] texts[j]) is Less
}

/// Puts a text into its place unless it is there already.
pub fn insert_sorted(texts: &mut Vec<String>, item: &str)
    requires
        ascending(views(old(texts)@)),
    ensures
        ascending(views(final(texts)@)),
        views(final(texts)@).to_set() == views(old(texts)@).to_set().insert(item@),
{
    let ghost before = views(texts@);
    let mut i: usize = 0;
    while i < texts.len()
        invariant
            i <= texts@.len(),
            views(texts@) == before,
            ascending(before),
            forall|j: int| 0 <= j < i ==> text_order(#[trigger] before[j], item@) is Less,
        ensures
            i < texts@.len() ==> text_order(before[i as int], item@) is Greater,
        decreases texts@.len() - i,
    {
        assert(before[i as int] == texts@[i as int]@);
        match order(texts[i].as_str(), item) {
            Order::Less => {
                i = i + 1;
            },
            Order::Equal => {
                proof {
                    law_text_order_equal(before[i as int], item@);
                    assert(before.contains(item@));
                    assert(before.to_set() =~= before.to_set().insert(item@));
                }
                return;
            },
            Order::Greater => {
                break;
            },
        }
    }
    let ghost k = i as int;
    let copy = item.to_owned();
    proof {
        assert forall|j: int| k <= j < before.len() implies text_order(
            item@,
            #[trigger] before[j],
        ) is Less by {
            law_text_order_reverses(before[k], item@);
            if j > k {
                law_text_order_transitive(item@, before[k], before[j]);
            }
        }
    }
    texts.insert(i, copy);
    proof {
        let after = views(texts@);
        assert(after =~= before.insert(k, item@));
        assert forall|a: int, b: int| 0 <= a < b < after.len() implies text_order(
            #[trigger] after[a],
            #[trigger] after[b],
        ) is Less by {
            let x = if a < k { a } else { a - 1 };
            let y = if b < k { b } else { b - 1 };
            if a != k {
                assert(after[a] == before[x]);
            }
            if b != k {
                assert(after[b] == before[y]);
            }
        }
        assert forall|t: Seq<char>| after.to_set().contains(t) <==> before.to_set().insert(
            item@,
        ).contains(t) by {
            if after.contains(t) {
                let a = choose|a: int| 0 <= a < after.len() && after[a] == t;
                if a != k {
                    let x = if a < k { a } else { a - 1 };
                    assert(before[x] == t);
                }
            }
            if before.contains(t) {
                let x = choose|x: int| 0 <= x < before.len() && before[x] == t;
                let a = if x < k { x } else { x + 1 };
                assert(after[a] == t);
            }
            assert(after[k] == item@);
        }
        assert(after.to_set() =~= before.to_set().insert(item@));
    }
}

// ---------------------------------------------------------------------------
// Whitespace and letter case

/// The characters with the Unicode property White_Space.
pub open spec fn is_white(c: char) -> bool {
    let code = c as u32;
    ||| 9 <= code <= 13
    ||| code == 32
    ||| code == 0x85
    ||| code == 0xa0
    ||| code == 0x1680
    ||| 0x2000 <= code <= 0x200a
    ||| code == 0x2028
    ||| code == 0x2029
    ||| code == 0x202f
    ||| code == 0x205f
    ||| code == 0x3000
}

pub fn white(c: char) -> (r: bool)
    ensures
        r == is_white(c),
{
    let code: u32 = c as u32;
    (9 <= code && code <= 13) || code == 32 || code == 0x85 || code == 0xa0 || code == 0x1680 || (
    0x2000 <= code && code <= 0x200a) || code == 0x2028 || code == 0x2029 || code == 0x202f || code
        == 0x205f || code == 0x3000
}

/// Nothing but whitespace.
pub open spec fn is_blank(text: Seq<char>) -> bool {
    forall|i: int| 0 <= i < text.len() ==> is_white(#[trigger] text[i])
}

pub fn blank(text: &str) -> (r: bool)
    ensures
        r == is_blank(text@),
{
    let chars = chars_of(text);
    let mut i: usize = 0;
    while i < chars.len()
        invariant
            i <= chars.len(),
            chars@ == text@,
            forall|j: int| 0 <= j < i ==> is_white(#[trigger] text@[j]),
        decreases chars.len() - i,
    {
        if !white(chars[i]) {
            assert(!is_white(text@[i as int]));
            return false;
        }
        i = i + 1;
    }
    true
}

/// `inner` is `text` without the whitespace around it.
pub open spec fn trimmed(text: Seq<char>) -> Seq<char>
    decreases text.len(),
{
    if text.len() > 0 && is_white(text[0]) {
        trimmed(text.skip(1))
    } else if text.len() > 0 && is_white(text.last()) {
        trimmed(text.drop_last())
    } else {
        text
    }
}

pub fn trim(text: &str) -> (r: String)
    ensures
        r@ == trimmed(text@),
{
    let chars = chars_of(text);
    let mut from: usize = 0;
    let mut to: usize = chars.len();
    assert(chars@.subrange(0, to as int) =~= chars@);
    while from < to && white(chars[from])
        invariant
            from <= to <= chars.len(),
            to == chars.len(),
            chars@ == text@,
            trimmed(text@) == trimmed(chars@.subrange(from as int, to as int)),
        decreases to - from,
    {
        assert(chars@.subrange(from as int, to as int).skip(1) =~= chars@.subrange(
            from + 1,
            to as int,
        ));
        from = from + 1;
    }
    while from < to && white(chars[to - 1])
        invariant
            from <= to <= chars.len(),
            chars@ == text@,
            from < to ==> !is_white(chars@[from as int]),
            trimmed(text@) == trimmed(chars@.subrange(from as int, to as int)),
        decreases to - from,
    {
        assert(chars@.subrange(from as int, to as int).drop_last() =~= chars@.subrange(
            from as int,
            to - 1,
        ));
        to = to - 1;
    }
    text_between(&chars, from, to)
}

/// The lower case form of an ASCII letter; every other character stays.
pub open spec fn ascii_lower(c: char) -> char {
    if 'A' <= c <= 'Z' {
        ((c as u32) + 32) as char
    } else {
        c
    }
}

pub fn to_ascii_lower(c: char) -> (r: char)
    ensures
        r == ascii_lower(c),
{
    if c >= 'A' && c <= 'Z' {
        ((c as u8) + 32) as char
    } else {
        c
    }
}

// ---------------------------------------------------------------------------
// Splitting and joining

/// The pieces of a text between the separators.
pub open spec fn split(text: Seq<char>, separator: char) -> Seq<Seq<char>>
    decreases text.len(),
{
    if text.len() == 0 {
        seq![Seq::<char>::empty()]
    } else {
        let before = split(text.drop_last(), separator);
        if text.last() == separator {
            before.push(Seq::empty())
        } else {
            before.drop_last().push(before.last().push(text.last()))
        }
    }
}

/// The pieces one after another with the separator between them.
pub open spec fn join(pieces: Seq<Seq<char>>, separator: Seq<char>) -> Seq<char>
    decreases pieces.len(),
{
    if pieces.len() == 0 {
        Seq::empty()
    } else if pieces.len() == 1 {
        pieces[0]
    } else {
        join(pieces.drop_last(), separator) + separator + pieces.last()
    }
}

pub proof fn lemma_split_not_empty(text: Seq<char>, separator: char)
    ensures
        split(text, separator).len() >= 1,
    decreases text.len(),
{
    if text.len() > 0 {
        lemma_split_not_empty(text.drop_last(), separator);
    }
}

/// Joining the pieces of a text gives the text back.
pub proof fn law_join_of_split(text: Seq<char>, separator: char)
    ensures
        join(split(text, separator), seq![separator]) == text,
    decreases text.len(),
{
    if text.len() > 0 {
        let before = split(text.drop_last(), separator);
        lemma_split_not_empty(text.drop_last(), separator);
        law_join_of_split(text.drop_last(), separator);
        let pieces = split(text, separator);
        if text.last() == separator {
            assert(pieces.drop_last() =~= before);
            assert(join(pieces, seq![separator]) =~= text);
        } else {
            assert(pieces.drop_last() =~= before.drop_last());
            if before.len() > 1 {
                assert(join(pieces, seq![separator]) == join(
                    before.drop_last(),
                    seq![separator],
                ) + seq![separator] + before.last().push(text.last()));
            } else {
                assert(pieces[0] == before.last().push(text.last()));
                assert(before.last() == before[0]);
            }
            assert(join(pieces, seq![separator]) =~= text.drop_last().push(text.last()));
            assert(text.drop_last().push(text.last()) =~= text);
        }
    } else {
        assert(join(split(text, separator), seq![separator]) =~= text);
    }
}

pub fn split_text(text: &str, separator: char) -> (pieces: Vec<String>)
    ensures
        views(pieces@) == split(text@, separator),
{
    let chars = chars_of(text);
    let mut pieces: Vec<String> = Vec::new();
    let mut last = String::new();
    let mut i: usize = 0;
    assert(views(pieces@).push(last@) =~= split(chars@.take(0), separator));
    while i < chars.len()
        invariant
            i <= chars.len(),
            chars@ == text@,
            views(pieces@).push(last@) == split(chars@.take(i as int), separator),
        decreases chars.len() - i,
    {
        let c = chars[i];
        proof {
            assert(chars@.take(i + 1).drop_last() =~= chars@.take(i as int));
            assert(chars@.take(i + 1).last() == c);
            let now = views(pieces@).push(last@);
            assert(now.drop_last() =~= views(pieces@));
            assert(now.last() == last@);
            lemma_views_push(pieces@, last);
        }
        if c == separator {
            pieces.push(last);
            last = String::new();
        } else {
            last.push(c);
        }
        i = i + 1;
        assert(views(pieces@).push(last@) =~= split(chars@.take(i as int), separator));
    }
    assert(chars@.take(i as int) =~= text@);
    proof {
        lemma_views_push(pieces@, last);
    }
    pieces.push(last);
    pieces
}

pub fn join_texts(pieces: &Vec<String>, separator: &str) -> (text: String)
    ensures
        text@ == join(views(pieces@), separator@),
{
    let mut text = String::new();
    let mut i: usize = 0;
    while i < pieces.len()
        invariant
            i <= pieces.len(),
            text@ == join(views(pieces@).take(i as int), separator@),
        decreases pieces.len() - i,
    {
        proof {
            let next = views(pieces@).take(i + 1);
            assert(next.drop_last() =~= views(pieces@).take(i as int));
            assert(next.last() == pieces@[i as int]@);
            assert(next.len() == 1 ==> next[0] == pieces@[i as int]@);
        }
        if i > 0 {
            text.append(separator);
        }
        text.append(pieces[i].as_str());
        i = i + 1;
        assert(text@ =~= join(views(pieces@).take(i as int), separator@));
    }
    assert(views(pieces@).take(i as int) =~= views(pieces@));
    text
}

// ---------------------------------------------------------------------------
// Numbers

pub open spec fn digit_char(d: int) -> char {
    (48 + d) as char
}

/// The decimal digits of a natural number, without leading zeros.
pub open spec fn digits(n: nat) -> Seq<char>
    decreases n,
{
    if n < 10 {
        seq![digit_char(n as int)]
    } else {
        digits(n / 10).push(digit_char((n % 10) as int))
    }
}

/// The decimal form of an integer.
pub open spec fn decimal(n: int) -> Seq<char> {
    if n < 0 {
        seq!['-'] + digits((-n) as nat)
    } else {
        digits(n as nat)
    }
}

fn digit_text(d: u64) -> (c: char)
    requires
        d < 10,
    ensures
        c == digit_char(d as int),
{
    if d == 0 {
        '0'
    } else if d == 1 {
        '1'
    } else if d == 2 {
        '2'
    } else if d == 3 {
        '3'
    } else if d == 4 {
        '4'
    } else if d == 5 {
        '5'
    } else if d == 6 {
        '6'
    } else if d == 7 {
        '7'
    } else if d == 8 {
        '8'
    } else {
        '9'
    }
}

pub fn decimal_u64(n: u64) -> (text: String)
    ensures
        text@ == decimal(n as int),
    decreases n,
{
    if n < 10 {
        let mut text = String::new();
        text.push(digit_text(n));
        assert(text@ =~= digits(n as nat));
        text
    } else {
        let mut text = decimal_u64(n / 10);
        text.push(digit_text(n % 10));
        text
    }
}

pub fn decimal_i64(n: i64) -> (text: String)
    ensures
        text@ == decimal(n as int),
{
    if n < 0 {
        let magnitude: u64 = if n == i64::MIN {
            0x8000_0000_0000_0000
        } else {
            (-n) as u64
        };
        let mut text = String::new();
        text.push('-');
        let rest = decimal_u64(magnitude);
        text.append(rest.as_str());
        assert(text@ =~= decimal(n as int));
        text
    } else {
        decimal_u64(n as u64)
    }
}

pub open spec fn is_digit(c: char) -> bool {
    '0' <= c <= '9'
}

pub open spec fn all_digits(text: Seq<char>) -> bool {
    forall|i: int| 0 <= i < text.len() ==> is_digit(#[trigger] text[i])
}

/// The number that a sequence of digits stands for.
pub open spec fn digits_value(text: Seq<char>) -> nat
    decreases text.len(),
{
    if text.len() == 0 {
        0
    } else {
        digits_value(text.drop_last()) * 10 + ((text.last() as u32) - 48) as nat
    }
}

/// The integer that a text stands for: digits with at most one sign before
/// them, where `-` is a sign only if `signed` holds.
pub open spec fn integer_value(text: Seq<char>, signed: bool) -> Option<int> {
    let negative = signed && text.len() > 0 && text[0] == '-';
    let body = if text.len() > 0 && (text[0] == '+' || negative) {
        text.skip(1)
    } else {
        text
    };
    if body.len() == 0 || !all_digits(body) {
        None
    } else if negative {
        Some(-(digits_value(body) as int))
    } else {
        Some(digits_value(body) as int)
    }
}

/// The integer of a text, if it lies between `low` and `high`.
pub open spec fn integer_within(text: Seq<char>, signed: bool, low: int, high: int) -> Option<int> {
    match integer_value(text, signed) {
        Some(n) => if low <= n <= high {
            Some(n)
        } else {
            None
        },
        None => None,
    }
}

proof fn lemma_digits_value_grows(text: Seq<char>, i: int)
    requires
        0 <= i <= text.len(),
        all_digits(text),
    ensures
        digits_value(text.take(i)) <= digits_value(text),
    decreases text.len(),
{
    if i < text.len() {
        assert(text.drop_last().take(i) =~= text.take(i));
        assert(all_digits(text.drop_last())) by {
            assert forall|j: int| 0 <= j < text.drop_last().len() implies is_digit(
                #[trigger] text.drop_last()[j],
            ) by {
                assert(is_digit(text[j]));
            }
        }
        lemma_digits_value_grows(text.drop_last(), i);
        assert(is_digit(text[text.len() - 1]));
    } else {
        assert(text.take(i) =~= text);
    }
}

/// The value of the digits from `from` on, if it is at most `limit`.
fn digits_up_to(chars: &Vec<char>, from: usize, limit: u64) -> (r: Option<u64>)
    requires
        from <= chars.len(),
        limit <= 0xffff_ffff,
    ensures
        ({
            let body = chars@.skip(from as int);
            match r {
                Some(n) => body.len() > 0 && all_digits(body) && n == digits_value(body) && n
                    <= limit,
                None => body.len() == 0 || !all_digits(body) || digits_value(body) > limit,
            }
        }),
{
    let ghost body = chars@.skip(from as int);
    if from == chars.len() {
        return None;
    }
    let mut i: usize = from;
    let mut value: u64 = 0;
    let mut over = false;
    while i < chars.len()
        invariant
            from <= i <= chars.len(),
            body == chars@.skip(from as int),
            limit <= 0xffff_ffff,
            all_digits(body.take(i - from)),
            !over ==> value == digits_value(body.take(i - from)) && value <= limit,
            over ==> digits_value(body.take(i - from)) > limit,
        decreases chars.len() - i,
    {
        let c = chars[i];
        proof {
            assert(body[i - from] == chars@[i as int]);
            assert(body.take(i + 1 - from).drop_last() =~= body.take(i - from));
            assert(body.take(i + 1 - from).last() == chars@[i as int]);
        }
        if c < '0' || c > '9' {
            assert(!is_digit(body[i - from]));
            return None;
        }
        assert forall|j: int| 0 <= j < body.take(i + 1 - from).len() implies is_digit(
            #[trigger] body.take(i + 1 - from)[j],
        ) by {
            if j < i - from {
                assert(body.take(i + 1 - from)[j] == body.take(i - from)[j]);
            }
        }
        if !over {
            let next: u64 = value * 10 + (c as u32 - 48) as u64;
            if next > limit {
                over = true;
            } else {
                value = next;
            }
        }
        i = i + 1;
    }
    assert(body.take(i - from) =~= body);
    if over {
        None
    } else {
        Some(value)
    }
}

/// Reads a `u32` in decimal form.
pub fn parse_u32(text: &str) -> (r: Option<u32>)
    ensures
        match r {
            Some(n) => integer_within(text@, false, 0, u32::MAX as int) == Some(n as int),
            None => integer_within(text@, false, 0, u32::MAX as int) is None,
        },
{
    let chars = chars_of(text);
    let from: usize = if chars.len() > 0 && chars[0] == '+' {
        1
    } else {
        0
    };
    assert(from == 0 ==> chars@.skip(0) =~= chars@);
    match digits_up_to(&chars, from, 0xffff_ffff) {
        Some(n) => Some(n as u32),
        None => None,
    }
}

/// Reads an `i32` in decimal form.
pub fn parse_i32(text: &str) -> (r: Option<i32>)
    ensures
        match r {
            Some(n) => integer_within(text@, true, i32::MIN as int, i32::MAX as int) == Some(
                n as int,
            ),
            None => integer_within(text@, true, i32::MIN as int, i32::MAX as int) is None,
        },
{
    let chars = chars_of(text);
    assert(chars@.skip(0) =~= chars@);
    if chars.len() > 0 && chars[0] == '-' {
        match digits_up_to(&chars, 1, 0x8000_0000) {
            Some(n) => Some((-(n as i64)) as i32),
            None => None,
        }
    } else {
        let from: usize = if chars.len() > 0 && chars[0] == '+' {
            1
        } else {
            0
        };
        match digits_up_to(&chars, from, 0x7fff_ffff) {
            Some(n) => Some(n as i32),
            None => None,
        }
    }
}

proof fn lemma_digits_read_back(n: nat)
    ensures
        digits(n).len() > 0,
        all_digits(digits(n)),
        digits_value(digits(n)) == n,
    decreases n,
{
    if n < 10 {
        let text = digits(n);
        assert(text.drop_last() =~= Seq::<char>::empty());
        assert(digits_value(text.drop_last()) == 0);
    } else {
        let before = digits(n / 10);
        let text = digits(n);
        lemma_digits_read_back(n / 10);
        assert(text.drop_last() =~= before);
        assert forall|j: int| 0 <= j < text.len() implies is_digit(#[trigger] text[j]) by {
            if j < before.len() {
                assert(text[j] == before[j]);
            }
        }
    }
}

/// Reading the decimal form of an integer gives the integer back.
pub proof fn law_decimal_reads_back(n: int, signed: bool)
    requires
        signed || n >= 0,
    ensures
        integer_value(decimal(n), signed) == Some(n),
{
    if n < 0 {
        lemma_digits_read_back((-n) as nat);
        assert(decimal(n).skip(1) =~= digits((-n) as nat));
    } else {
        lemma_digits_read_back(n as nat);
        assert(is_digit(digits(n as nat)[0]));
    }
}

// ---------------------------------------------------------------------------
// Laws on texts

/// Two texts are ordered as the characters at the first place where they
/// differ; a text comes before every longer one that begins with it.
pub proof fn law_text_order_goes_by_first_difference(
    left: Seq<char>,
    right: Seq<char>,
    i: int,
)
    requires
        0 <= i <= left.len(),
        i <= right.len(),
        left.take(i) == right.take(i),
    ensures
        i < left.len() && i < right.len() && left[i] < right[i] ==> text_order(left, right) is Less,
        i < left.len() && i < right.len() && left[i] > right[i] ==> text_order(left, right)
            is Greater,
        i == left.len() && i < right.len() ==> text_order(left, right) is Less,
        i < left.len() && i == right.len() ==> text_order(left, right) is Greater,
    decreases i,
{
    if i > 0 {
        assert(left.take(i)[0] == left[0] && right.take(i)[0] == right[0]);
        assert(left.skip(1).take(i - 1) =~= left.take(i).skip(1));
        assert(right.skip(1).take(i - 1) =~= right.take(i).skip(1));
        law_text_order_goes_by_first_difference(left.skip(1), right.skip(1), i - 1);
    }
}

proof fn lemma_trimmed(text: Seq<char>) -> (ends: (int, int))
    ensures
        trimmed(text).len() > 0 ==> !is_white(trimmed(text)[0]) && !is_white(trimmed(text).last()),
        0 <= ends.0 <= ends.1 <= text.len(),
        text.subrange(ends.0, ends.1) == trimmed(text),
        forall|i: int| 0 <= i < ends.0 ==> is_white(#[trigger] text[i]),
        forall|i: int| ends.1 <= i < text.len() ==> is_white(#[trigger] text[i]),
    decreases text.len(),
{
    if text.len() > 0 && is_white(text[0]) {
        let rest = text.skip(1);
        let (from, to) = lemma_trimmed(rest);
        assert(text.subrange(from + 1, to + 1) =~= rest.subrange(from, to));
        assert forall|i: int| 0 <= i < text.len() && (i < from + 1 || to + 1 <= i) implies is_white(
            #[trigger] text[i],
        ) by {
            if i > 0 {
                assert(rest[i - 1] == text[i]);
            }
        }
        (from + 1, to + 1)
    } else if text.len() > 0 && is_white(text.last()) {
        let rest = text.drop_last();
        let (from, to) = lemma_trimmed(rest);
        assert(text.subrange(from, to) =~= rest.subrange(from, to));
        assert forall|i: int| 0 <= i < text.len() && (i < from || to <= i) implies is_white(
            #[trigger] text[i],
        ) by {
            if i < rest.len() {
                assert(rest[i] == text[i]);
            }
        }
        (from, to)
    } else {
        assert(text.subrange(0, text.len() as int) =~= text);
        (0, text.len() as int)
    }
}

/// A trimmed text is what is left of a text without the white space at its
/// ends: it neither begins nor ends with white space.
pub proof fn law_trimmed(text: Seq<char>)
    ensures
        trimmed(text).len() > 0 ==> !is_white(trimmed(text)[0]) && !is_white(trimmed(text).last()),
        exists|from: int, to: int|
            0 <= from <= to <= text.len() && #[trigger] text.subrange(from, to) == trimmed(text)
                && (forall|i: int| 0 <= i < from ==> is_white(#[trigger] text[i]))
                    && (forall|i: int|
                to <= i < text.len() ==> is_white(#[trigger] text[i])),
{
    let (from, to) = lemma_trimmed(text);
    assert(text.subrange(from, to) == trimmed(text));
}

/// Of the characters of ASCII the space and the five from tab to return are
/// white space.
pub proof fn law_white_space_of_ascii(c: char)
    requires
        (c as u32) < 128,
    ensures
        is_white(c) <==> c == ' ' || '\t' <= c <= '\r',
{
}

/// No piece of a split text holds the separator.
pub proof fn law_pieces_hold_no_separator(text: Seq<char>, separator: char)
    ensures
        split(text, separator).len() >= 1,
        forall|i: int|
            0 <= i < split(text, separator).len()
                ==> !(#[trigger] split(text, separator)[i]).contains(
                separator,
            ),
    decreases text.len(),
{
    if text.len() > 0 {
        let before = split(text.drop_last(), separator);
        law_pieces_hold_no_separator(text.drop_last(), separator);
        let after = split(text, separator);
        assert forall|i: int| 0 <= i < after.len() implies !(#[trigger] after[i]).contains(
            separator,
        ) by {
            if i < before.len() - 1 || (text.last() == separator && i < before.len()) {
                assert(after[i] == before[i]);
            } else if text.last() != separator {
                let last = before.last();
                assert(last == before[before.len() - 1]);
                assert(after[i] == last.push(text.last()));
                if after[i].contains(separator) {
                    let k = choose|k: int| 0 <= k < after[i].len() && after[i][k] == separator;
                    assert(last[k] == separator);
                }
            }
        }
    }
}

/// A text reads as an integer exactly where it is digits, with a plus sign or,
/// where signs are read, a minus sign before them; the minus sign negates.
pub proof fn law_integer_texts(body: Seq<char>, signed: bool)
    ensures
        body.len() > 0 && all_digits(body) ==> {
            &&& integer_value(body, signed) == Some(digits_value(body) as int)
            &&& integer_value(seq!['+'] + body, signed) == Some(digits_value(body) as int)
            &&& integer_value(seq!['-'] + body, true) == Some(-(digits_value(body) as int))
            &&& integer_value(seq!['-'] + body, false) is None
        },
        integer_value(body, signed) is Some ==> all_digits(body) || (all_digits(body.skip(1)) && (
        body[0] == '+' || (signed && body[0] == '-'))),
        body.len() == 0 ==> integer_value(body, signed) is None,
{
    if body.len() > 0 && all_digits(body) {
        assert(is_digit(body[0]));
        assert((seq!['+'] + body).skip(1) =~= body);
        assert((seq!['-'] + body).skip(1) =~= body);
        assert(!is_digit((seq!['-'] + body)[0]));
    }
}

/// The value of digits: each further digit counts ten times less.
pub proof fn law_digits_value(text: Seq<char>, c: char)
    requires
        is_digit(c),
    ensures
        digits_value(Seq::empty()) == 0,
        digits_value(text.push(c)) == 10 * digits_value(text) + ((c as int) - ('0' as int)),
{
    assert(text.push(c).drop_last() =~= text);
}

/// Only the letters from A to Z change, each to its small letter.
pub proof fn law_ascii_lower(c: char)
    ensures
        'A' <= c <= 'Z' ==> (ascii_lower(c) as int) - (c as int) == ('a' as int) - ('A' as int),
        !('A' <= c <= 'Z') ==> ascii_lower(c) == c,
{
}

/// The pieces of two texts with a separator between them are those of the one,
/// then those of the other.
pub proof fn law_pieces_around_a_separator(left: Seq<char>, right: Seq<char>, separator: char)
    ensures
        split(left + seq![separator] + right, separator) == split(left, separator) + split(
            right,
            separator,
        ),
    decreases right.len(),
{
    let whole = left + seq![separator] + right;
    lemma_split_not_empty(right, separator);
    if right.len() == 0 {
        assert(whole =~= left.push(separator));
        assert(whole.drop_last() =~= left);
        assert(split(whole, separator) =~= split(left, separator) + split(right, separator));
    } else {
        law_pieces_around_a_separator(left, right.drop_last(), separator);
        lemma_split_not_empty(right.drop_last(), separator);
        assert(whole.drop_last() =~= left + seq![separator] + right.drop_last());
        assert(whole.last() == right.last());
        let before = split(right.drop_last(), separator);
        let both = split(left, separator) + before;
        assert(both.last() == before.last());
        assert(both.drop_last() =~= split(left, separator) + before.drop_last());
        assert(split(whole, separator) =~= split(left, separator) + split(right, separator));
    }
}

/// A text without the separator is one piece.
pub proof fn law_one_piece(text: Seq<char>, separator: char)
    requires
        !text.contains(separator),
    ensures
        split(text, separator) == seq![text],
    decreases text.len(),
{
    if text.len() == 0 {
        assert(text =~= Seq::<char>::empty());
    } else {
        assert forall|c: char| text.drop_last().contains(c) implies text.contains(c) by {
            let i = choose|i: int| 0 <= i < text.drop_last().len() && text.drop_last()[i] == c;
            assert(text[i] == c);
        }
        law_one_piece(text.drop_last(), separator);
        assert(text.contains(text.last()));
        assert(text.drop_last().push(text.last()) =~= text);
        assert(split(text, separator) =~= seq![text]);
    }
}

/// A number is written without leading zeros, a negative one behind a minus.
pub proof fn law_decimal_form(n: int)
    ensures
        n > 0 ==> decimal(n)[0] != '0',
        n == 0 ==> decimal(n) == seq!['0'],
        n < 0 ==> decimal(n) == seq!['-'] + decimal(-n),
{
    if n > 0 {
        lemma_no_leading_zero(n as nat);
    }
}

proof fn lemma_no_leading_zero(n: nat)
    requires
        n > 0,
    ensures
        digits(n).len() > 0,
        digits(n)[0] != '0',
    decreases n,
{
    if n >= 10 {
        lemma_no_leading_zero(n / 10);
    }
}

/// Texts joined with one more at the end have the separator before it.
pub proof fn law_joined_texts(pieces: Seq<Seq<char>>, piece: Seq<char>, separator: Seq<char>)
    ensures
        join(Seq::empty(), separator).len() == 0,
        join(seq![piece], separator) == piece,
        pieces.len() > 0 ==> join(pieces.push(piece), separator) == join(pieces, separator)
            + separator + piece,
{
    assert(pieces.push(piece).drop_last() =~= pieces);
}

} // verus!
