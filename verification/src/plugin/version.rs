//! Which of two plugin versions is the later one.
use std::cmp::Ordering;
use vstd::prelude::*;
use crate::text;
use crate::text::{chars_of, order, text_between, trim, Order};

verus! {

/// A number of a semantic version: digits without a leading zero, within 64
/// bits.
pub open spec fn version_number(piece: Seq<char>) -> Option<nat> {
    if piece.len() > 0 && text::all_digits(piece) && (piece[0] != '0' || piece.len() == 1)
        && text::digits_value(piece) <= u64::MAX {
        Some(text::digits_value(piece))
    } else {
        None
    }
}

/// The numbers of a version of the form `major.minor.patch`.
pub open spec fn release(version: Seq<char>) -> Option<(nat, nat, nat)> {
    let pieces = text::split(version, '.');
    if pieces.len() == 3 && version_number(pieces[0]) is Some && version_number(pieces[1]) is Some
        && version_number(pieces[2]) is Some {
        Some(
            (
                version_number(pieces[0])->0,
                version_number(pieces[1])->0,
                version_number(pieces[2])->0,
            ),
        )
    } else {
        None
    }
}

/// Numbers compared from left to right.
pub open spec fn release_order(left: (nat, nat, nat), right: (nat, nat, nat)) -> Order {
    if left.0 != right.0 {
        if left.0 < right.0 {
            Order::Less
        } else {
            Order::Greater
        }
    } else if left.1 != right.1 {
        if left.1 < right.1 {
            Order::Less
        } else {
            Order::Greater
        }
    } else if left.2 < right.2 {
        Order::Less
    } else if left.2 > right.2 {
        Order::Greater
    } else {
        Order::Equal
    }
}

/// Whether `semver::Version::parse` accepts a text.
pub uninterp spec fn semver_valid(version: Seq<char>) -> bool;

/// How `semver::Version` orders two texts that it accepts.
pub uninterp spec fn semver_order(left: Seq<char>, right: Seq<char>) -> Order;

/// `semver::Version::parse` accepts or refuses a text by the text alone; three
/// numbers with dots between them are accepted.
#[verifier::external_body]
fn is_semver(version: &str) -> (valid: bool)
    ensures
        valid == semver_valid(version@),
        release(version@) is Some ==> valid,
{
    semver::Version::parse(version).is_ok()
}

/// `semver::Version` has a total order: a version equals itself, swapping two
/// versions reverses their order, and the order carries over a third version.
/// Plain releases are ordered by their numbers from left to right.
#[verifier::external_body]
fn order_semver(left: &str, right: &str) -> (r: Order)
    requires
        semver_valid(left@),
        semver_valid(right@),
    ensures
        r == semver_order(left@, right@),
        left@ == right@ ==> r is Equal,
        semver_order(right@, left@) == r.reversed(),
        forall|third: Seq<char>|
            #![trigger semver_order(third, right@)]
            semver_valid(third) && !(semver_order(third, right@) is Greater) ==> {
                &&& !(r is Less) ==> !(semver_order(third, left@) is Greater)
                &&& r is Greater ==> semver_order(third, left@) is Less
            },
        release(left@) is Some && release(right@) is Some ==> r == release_order(
            release(left@)->0,
            release(right@)->0,
        ),
{
    let left = semver::Version::parse(left).unwrap();
    let right = semver::Version::parse(right).unwrap();
    match left.cmp(&right) {
        Ordering::Less => Order::Less,
        Ordering::Equal => Order::Equal,
        Ordering::Greater => Order::Greater,
    }
}

/// A text without the letters `v` that it starts with.
pub open spec fn without_v(version: Seq<char>) -> Seq<char>
    decreases version.len(),
{
    if version.len() > 0 && (version[0] == 'v' || version[0] == 'V') {
        without_v(version.skip(1))
    } else {
        version
    }
}

/// The part of a version text that is read as a semantic version.
pub open spec fn bare(version: Seq<char>) -> Seq<char> {
    without_v(text::trimmed(version))
}

/// Semantic order where both texts are semantic versions, dictionary order
/// where one of them is not.
pub open spec fn version_order(left: Seq<char>, right: Seq<char>) -> Order {
    if semver_valid(bare(left)) && semver_valid(bare(right)) {
        semver_order(bare(left), bare(right))
    } else {
        text::text_order(left, right)
    }
}

fn bare_version(version: &str) -> (r: String)
    ensures
        r@ == bare(version@),
{
    let inner = trim(version);
    let chars = chars_of(inner.as_str());
    let mut from: usize = 0;
    assert(chars@.skip(0) =~= chars@);
    while from < chars.len() && (chars[from] == 'v' || chars[from] == 'V')
        invariant
            from <= chars.len(),
            chars@ == inner@,
            without_v(inner@) == without_v(chars@.skip(from as int)),
        decreases chars.len() - from,
    {
        assert(chars@.skip(from as int).skip(1) =~= chars@.skip(from + 1));
        from = from + 1;
    }
    let rest = text_between(&chars, from, chars.len());
    assert(rest@ =~= chars@.skip(from as int));
    rest
}

/// Compares two version texts.
pub fn order_versions(left: &str, right: &str) -> (r: Order)
    ensures
        r == version_order(left@, right@),
        left@ == right@ ==> r is Equal,
        version_order(right@, left@) == r.reversed(),
        semver_valid(bare(left@)) && semver_valid(bare(right@)) ==> forall|third: Seq<char>|
            #![trigger version_order(third, right@)]
            semver_valid(bare(third)) && !(version_order(third, right@) is Greater) ==> {
                &&& !(r is Less) ==> !(version_order(third, left@) is Greater)
                &&& r is Greater ==> version_order(third, left@) is Less
            },
        release(bare(left@)) is Some && release(bare(right@)) is Some ==> r == release_order(
            release(bare(left@))->0,
            release(bare(right@))->0,
        ),
{
    let a = bare_version(left);
    let b = bare_version(right);
    let both = is_semver(a.as_str()) && is_semver(b.as_str());
    proof {
        text::law_text_order_equal(left@, right@);
        text::law_text_order_reverses(left@, right@);
    }
    if both {
        order_semver(a.as_str(), b.as_str())
    } else {
        order(left, right)
    }
}

/// An order as std writes it.
pub open spec fn std_order(order: Order) -> Ordering {
    match order {
        Order::Less => Ordering::Less,
        Order::Equal => Ordering::Equal,
        Order::Greater => Ordering::Greater,
    }
}

/// Compares two version texts as std does values.
pub fn version_cmp(left: &str, right: &str) -> (r: Ordering)
    ensures
        r == std_order(version_order(left@, right@)),
        left@ == right@ ==> r is Equal,
        std_order(version_order(right@, left@).reversed()) == r,
        release(bare(left@)) is Some && release(bare(right@)) is Some ==> r == std_order(
            release_order(release(bare(left@))->0, release(bare(right@))->0),
        ),
{
    match order_versions(left, right) {
        Order::Less => Ordering::Less,
        Order::Equal => Ordering::Equal,
        Order::Greater => Ordering::Greater,
    }
}

/// Releases go by their first number, then the second, then the third.
pub proof fn law_release_order(left: (nat, nat, nat), right: (nat, nat, nat))
    ensures
        release_order(left, right) is Less <==> (left.0 < right.0 || (left.0 == right.0 && (left.1
            < right.1 || (left.1 == right.1 && left.2 < right.2)))),
        release_order(left, right) is Equal <==> left == right,
        release_order(left, right) == release_order(right, left).reversed(),
{
}

/// Texts that are no versions go by their characters; one version among them
/// changes nothing.
pub proof fn law_other_texts_by_characters(left: Seq<char>, right: Seq<char>)
    requires
        !semver_valid(bare(left)) || !semver_valid(bare(right)),
    ensures
        version_order(left, right) == text::text_order(left, right),
{
}

/// Two versions go by what stands behind the `v` and between the white space.
pub proof fn law_versions_without_marks(left: Seq<char>, right: Seq<char>)
    requires
        semver_valid(bare(left)),
        semver_valid(bare(right)),
    ensures
        version_order(left, right) == semver_order(bare(left), bare(right)),
{
}

/// A leading `v` or `V` does not count, nor does white space around the text;
/// nothing else is taken off.
pub proof fn law_bare_version(version: Seq<char>)
    requires
        version.len() > 0,
        !text::is_white(version[0]),
        !text::is_white(version.last()),
    ensures
        bare(seq!['v'] + version) == bare(version),
        bare(seq!['V'] + version) == bare(version),
        version[0] != 'v' && version[0] != 'V' ==> bare(version) == version,
{
    let small = seq!['v'] + version;
    let large = seq!['V'] + version;
    assert(small.skip(1) =~= version);
    assert(large.skip(1) =~= version);
    assert(small.last() == version.last());
    assert(large.last() == version.last());
    assert(!text::is_white('v') && !text::is_white('V'));
}

/// Three numbers without leading zeros and with dots between them are a
/// release; no other text is.
pub proof fn law_release_texts(version: Seq<char>)
    ensures
        release(version) matches Some(r) ==> text::split(version, '.').len() == 3 && r == (
            text::digits_value(text::split(version, '.')[0]),
            text::digits_value(text::split(version, '.')[1]),
            text::digits_value(text::split(version, '.')[2]),
        ),
        release(version) is Some <==> text::split(version, '.').len() == 3 && forall|i: int|
            0 <= i < 3 ==> {
                let number = #[trigger] text::split(version, '.')[i];
                &&& number.len() > 0
                &&& text::all_digits(number)
                &&& number.len() == 1 || number[0] != '0'
                &&& text::digits_value(number) <= u64::MAX
            },
{
    let pieces = text::split(version, '.');
    if release(version) is Some {
        assert forall|i: int| 0 <= i < 3 implies {
            let number = #[trigger] pieces[i];
            &&& number.len() > 0
            &&& text::all_digits(number)
            &&& number.len() == 1 || number[0] != '0'
            &&& text::digits_value(number) <= u64::MAX
        } by {
            assert(version_number(pieces[i]) is Some);
        }
    }
    if pieces.len() == 3 && (forall|i: int|
        0 <= i < 3 ==> {
            let number = #[trigger] pieces[i];
            &&& number.len() > 0
            &&& text::all_digits(number)
            &&& number.len() == 1 || number[0] != '0'
            &&& text::digits_value(number) <= u64::MAX
        }) {
        let first = pieces[0];
        let second = pieces[1];
        let third = pieces[2];
    }
}

/// An order is told by the standard one of the same name.
pub proof fn law_told_order()
    ensures
        std_order(Order::Less) == Ordering::Less,
        std_order(Order::Equal) == Ordering::Equal,
        std_order(Order::Greater) == Ordering::Greater,
{
}

} // verus!
