//! Text helpers: views of optional and listed text, copying, comparing, and joining id lists.

use vstd::prelude::*;

verus! {

/// The characters of an optional text.
pub open spec fn text_option_view(text: Option<String>) -> Option<Seq<char>> {
    match text {
        Some(t) => Some(t@),
        None => None,
    }
}

/// The characters of each text in a list.
pub open spec fn text_views(texts: Seq<String>) -> Seq<Seq<char>> {
    texts.map_values(|t: String| t@)
}

/// Copies an optional text.
pub fn clone_text_option(text: &Option<String>) -> (r: Option<String>)
    ensures
        text_option_view(r) == text_option_view(*text),
{
    match text {
        Some(t) => Some(t.clone()),
        None => None,
    }
}

/// Copies a list of texts.
pub fn clone_texts(texts: &Vec<String>) -> (r: Vec<String>)
    ensures
        text_views(r@) == text_views(texts@),
{
    let mut out: Vec<String> = Vec::new();
    let mut i: usize = 0;
    while i < texts.len()
        invariant
            i <= texts@.len(),
            out@.len() == i,
            forall|k: int| 0 <= k < i ==> #[trigger] out@[k]@ == texts@[k]@,
        decreases texts@.len() - i,
    {
        out.push(texts[i].clone());
        i = i + 1;
    }
    proof {
        assert(text_views(out@) =~= text_views(texts@));
    }
    out
}

/// Whether two optional texts hold the same characters.
pub fn text_options_equal(a: &Option<String>, b: &Option<String>) -> (r: bool)
    ensures
        r == (text_option_view(*a) == text_option_view(*b)),
{
    match (a, b) {
        (Some(x), Some(y)) => x.eq(y),
        (None, None) => true,
        _ => false,
    }
}

/// Whether two lists of texts hold the same texts in the same order.
pub fn texts_equal(a: &Vec<String>, b: &Vec<String>) -> (r: bool)
    ensures
        r == (text_views(a@) == text_views(b@)),
{
    if a.len() != b.len() {
        proof {
            assert(text_views(a@).len() != text_views(b@).len());
        }
        return false;
    }
    let mut i: usize = 0;
    while i < a.len()
        invariant
            a@.len() == b@.len(),
            i <= a@.len(),
            forall|k: int| 0 <= k < i ==> a@[k]@ == b@[k]@,
        decreases a@.len() - i,
    {
        if !a[i].eq(&b[i]) {
            proof {
                assert(text_views(a@)[i as int] != text_views(b@)[i as int]);
            }
            return false;
        }
        i = i + 1;
    }
    proof {
        assert(text_views(a@) =~= text_views(b@));
    }
    true
}

/// Ids joined by single spaces, the form of an ARIA id-reference list.
pub open spec fn space_joined(ids: Seq<Seq<char>>) -> Seq<char>
    decreases ids.len(),
{
    if ids.len() == 0 {
        Seq::empty()
    } else if ids.len() == 1 {
        ids[0]
    } else {
        space_joined(ids.drop_last()) + seq![' '] + ids.last()
    }
}

/// An ARIA id-reference list of `ids`, or `None` when there are no ids to reference.
pub open spec fn id_reference_list(ids: Seq<Seq<char>>) -> Option<Seq<char>> {
    if ids.len() == 0 {
        None
    } else {
        Some(space_joined(ids))
    }
}

/// Joins ids into one ARIA id-reference list, or returns `None` for no ids.
pub fn join_ids(ids: &Vec<String>) -> (r: Option<String>)
    ensures
        text_option_view(r) == id_reference_list(text_views(ids@)),
{
    if ids.len() == 0 {
        return None;
    }
    let mut joined: String = ids[0].clone();
    let mut i: usize = 1;
    proof {
        assert(text_views(ids@).take(1).drop_last() =~= Seq::<Seq<char>>::empty());
        assert(space_joined(text_views(ids@).take(1)) == text_views(ids@)[0]);
    }
    while i < ids.len()
        invariant
            1 <= i <= ids@.len(),
            joined@ == space_joined(text_views(ids@).take(i as int)),
        decreases ids@.len() - i,
    {
        let separator = " ";
        proof {
            reveal_strlit(" ");
        }
        joined.append(separator);
        joined.append(ids[i].as_str());
        proof {
            let views = text_views(ids@);
            assert(views.take(i + 1).drop_last() =~= views.take(i as int));
            assert(views.take(i + 1).last() == ids@[i as int]@);
        }
        i = i + 1;
    }
    proof {
        assert(text_views(ids@).take(i as int) =~= text_views(ids@));
    }
    Some(joined)
}


/// The decimal digit character for `d`.
pub open spec fn digit_char(d: nat) -> char {
    if d == 0 {
        '0'
    } else if d == 1 {
        '1'
    } else if d == 2 {
        '2'
    } else if d == 3 {
        '3'
    } else if d == 4 {
        '4'
    } else if d == 5 {
        '5'
    } else if d == 6 {
        '6'
    } else if d == 7 {
        '7'
    } else if d == 8 {
        '8'
    } else {
        '9'
    }
}

/// The decimal spelling of `n`, without leading zeros.
pub open spec fn decimal(n: nat) -> Seq<char>
    decreases n,
{
    if n < 10 {
        seq![digit_char(n)]
    } else {
        decimal(n / 10).push(digit_char(n % 10))
    }
}

/// The text of one decimal digit.
fn digit_text(d: u64) -> (r: &'static str)
    requires
        d < 10,
    ensures
        r@ == seq![digit_char(d as nat)],
{
    proof {
        reveal_strlit("0");
        reveal_strlit("1");
        reveal_strlit("2");
        reveal_strlit("3");
        reveal_strlit("4");
        reveal_strlit("5");
        reveal_strlit("6");
        reveal_strlit("7");
        reveal_strlit("8");
        reveal_strlit("9");
    }
    if d == 0 {
        "0"
    } else if d == 1 {
        "1"
    } else if d == 2 {
        "2"
    } else if d == 3 {
        "3"
    } else if d == 4 {
        "4"
    } else if d == 5 {
        "5"
    } else if d == 6 {
        "6"
    } else if d == 7 {
        "7"
    } else if d == 8 {
        "8"
    } else {
        "9"
    }
}

/// Spells `n` in decimal.
pub fn decimal_text(n: u64) -> (r: String)
    ensures
        r@ == decimal(n as nat),
    decreases n,
{
    if n < 10 {
        digit_text(n).to_owned()
    } else {
        let mut text = decimal_text(n / 10);
        text.append(digit_text(n % 10));
        text
    }
}

/// The id generated for a part: `dxf-{prefix}-{scope}-{index}`, unique to the owning scope and to
/// the generation's position within it.
pub open spec fn generated_id_text(prefix: Seq<char>, scope: nat, index: nat) -> Seq<char> {
    "dxf-"@ + prefix + "-"@ + decimal(scope) + "-"@ + decimal(index)
}

/// Generates the id for a part with `prefix`, owned by scope number `scope`, as the scope's
/// generation number `index`.
pub fn generated_id(prefix: &str, scope: u64, index: u64) -> (r: String)
    ensures
        r@ == generated_id_text(prefix@, scope as nat, index as nat),
{
    let mut id = "dxf-".to_owned();
    id.append(prefix);
    id.append("-");
    id.append(decimal_text(scope).as_str());
    id.append("-");
    id.append(decimal_text(index).as_str());
    id
}


/// Every character of a decimal spelling is a digit, so none is a `-`.
proof fn lemma_decimal_has_no_dash(n: nat)
    ensures
        decimal(n).len() > 0,
        forall|k: int| 0 <= k < decimal(n).len() ==> #[trigger] decimal(n)[k] != '-',
    decreases n,
{
    if n >= 10 {
        lemma_decimal_has_no_dash(n / 10);
        let prefix = decimal(n / 10);
        assert forall|k: int| 0 <= k < decimal(n).len() implies #[trigger] decimal(n)[k] != '-' by {
            if k < prefix.len() {
                assert(decimal(n)[k] == prefix[k]);
            }
        }
    }
}

/// Digit characters name their digit.
proof fn lemma_digit_char_injective(a: nat, b: nat)
    requires
        a < 10,
        b < 10,
        digit_char(a) == digit_char(b),
    ensures
        a == b,
{
}

/// Decimal spellings name their number: distinct numbers are spelled differently.
proof fn lemma_decimal_injective(n: nat, m: nat)
    requires
        decimal(n) == decimal(m),
    ensures
        n == m,
    decreases n,
{
    if n >= 10 {
        lemma_decimal_has_no_dash(n / 10);
    }
    if m >= 10 {
        lemma_decimal_has_no_dash(m / 10);
    }
    if n < 10 && m < 10 {
        assert(decimal(n) == seq![digit_char(n)]);
        assert(decimal(m) == seq![digit_char(m)]);
        assert(seq![digit_char(n)][0] == digit_char(n));
        assert(seq![digit_char(m)][0] == digit_char(m));
        assert(decimal(n)[0] == decimal(m)[0]);
        lemma_digit_char_injective(n, m);
    } else if n >= 10 && m >= 10 {
        assert(decimal(n).drop_last() =~= decimal(n / 10));
        assert(decimal(m).drop_last() =~= decimal(m / 10));
        lemma_decimal_injective(n / 10, m / 10);
        assert(decimal(n) == decimal(n / 10).push(digit_char(n % 10)));
        assert(decimal(m) == decimal(m / 10).push(digit_char(m % 10)));
        assert(decimal(n).last() == digit_char(n % 10));
        assert(decimal(m).last() == digit_char(m % 10));
        lemma_digit_char_injective(n % 10, m % 10);
    } else if n < 10 {
        assert(decimal(n).len() == 1);
        assert(decimal(m).len() == decimal(m / 10).len() + 1);
    } else {
        assert(decimal(m).len() == 1);
        assert(decimal(n).len() == decimal(n / 10).len() + 1);
    }
}

/// Two decimals each followed by a `-` and more text split apart only one way.
proof fn lemma_split_at_dash(a1: Seq<char>, b1: Seq<char>, a2: Seq<char>, b2: Seq<char>)
    requires
        forall|k: int| 0 <= k < a1.len() ==> #[trigger] a1[k] != '-',
        forall|k: int| 0 <= k < a2.len() ==> #[trigger] a2[k] != '-',
        a1 + seq!['-'] + b1 == a2 + seq!['-'] + b2,
    ensures
        a1 == a2,
        b1 == b2,
{
    let whole = a1 + seq!['-'] + b1;
    if a1.len() < a2.len() {
        assert(whole[a1.len() as int] == '-');
        assert((a2 + seq!['-'] + b2)[a1.len() as int] == a2[a1.len() as int]);
    } else if a2.len() < a1.len() {
        assert((a2 + seq!['-'] + b2)[a2.len() as int] == '-');
        assert(whole[a2.len() as int] == a1[a2.len() as int]);
    } else {
        assert(a1 =~= whole.take(a1.len() as int));
        assert(a2 =~= (a2 + seq!['-'] + b2).take(a2.len() as int));
        assert(b1 =~= whole.skip(a1.len() as int + 1));
        assert(b2 =~= (a2 + seq!['-'] + b2).skip(a2.len() as int + 1));
    }
}

/// Generated ids are unique to their scope and index: for one prefix, two generations spell the
/// same id only when they share both the scope and the index.
pub proof fn law_generated_ids_are_unique(prefix: Seq<char>, scope1: nat, index1: nat, scope2: nat, index2: nat)
    requires
        generated_id_text(prefix, scope1, index1) == generated_id_text(prefix, scope2, index2),
    ensures
        scope1 == scope2,
        index1 == index2,
{
    reveal_strlit("dxf-");
    reveal_strlit("-");
    let head = "dxf-"@ + prefix + "-"@;
    let tail1 = decimal(scope1) + seq!['-'] + decimal(index1);
    let tail2 = decimal(scope2) + seq!['-'] + decimal(index2);
    assert(generated_id_text(prefix, scope1, index1) =~= head + tail1);
    assert(generated_id_text(prefix, scope2, index2) =~= head + tail2);
    assert(tail1 =~= (head + tail1).skip(head.len() as int));
    assert(tail2 =~= (head + tail2).skip(head.len() as int));
    lemma_decimal_has_no_dash(scope1);
    lemma_decimal_has_no_dash(scope2);
    lemma_split_at_dash(decimal(scope1), decimal(index1), decimal(scope2), decimal(index2));
    lemma_decimal_injective(scope1, scope2);
    lemma_decimal_injective(index1, index2);
}

/// The field identity a diagnostic appends after its leading sentence: the id and name that are
/// available, in parentheses, or nothing when neither is.
pub open spec fn field_identity_text(id: Option<Seq<char>>, name: Option<Seq<char>>) -> Seq<char> {
    match (id, name) {
        (Some(id), Some(name)) => " (field id: "@ + id + ", field name: "@ + name + ")"@,
        (Some(id), None) => " (field id: "@ + id + ")"@,
        (None, Some(name)) => " (field name: "@ + name + ")"@,
        (None, None) => Seq::empty(),
    }
}

/// Spells the field identity a diagnostic appends after its leading sentence, such as
/// ` (field id: amount, field name: amount-field)`.
pub fn field_identity_suffix(id: Option<&str>, name: Option<&str>) -> (r: String)
    ensures
        r@ == field_identity_text(
            match id {
                Some(id) => Some(id@),
                None => None,
            },
            match name {
                Some(name) => Some(name@),
                None => None,
            },
        ),
{
    match (id, name) {
        (Some(id), Some(name)) => {
            let mut text = " (field id: ".to_owned();
            text.append(id);
            text.append(", field name: ");
            text.append(name);
            text.append(")");
            text
        },
        (Some(id), None) => {
            let mut text = " (field id: ".to_owned();
            text.append(id);
            text.append(")");
            text
        },
        (None, Some(name)) => {
            let mut text = " (field name: ".to_owned();
            text.append(name);
            text.append(")");
            text
        },
        (None, None) => String::new(),
    }
}

} // verus!
