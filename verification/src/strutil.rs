use vstd::prelude::*;

verus! {

/// Equality of two owned strings, usable wherever contracts speak of views.
pub fn string_eq(a: &String, b: &String) -> (r: bool)
    ensures
        r == (a@ == b@),
{
    a.eq(b)
}

/// Equality of an owned string and a borrowed slice (commands, literals).
pub fn string_eq_str(a: &String, b: &str) -> (r: bool)
    ensures
        r == (a@ == b@),
{
    let owned = String::from_str(b);
    a.eq(&owned)
}

/// What Unicode lowercasing makes of a string's characters: a function of
/// the characters alone.
pub uninterp spec fn lower_of(s: Seq<char>) -> Seq<char>;

/// Relies on str::to_lowercase: the result depends on the characters alone,
/// and an empty string stays empty.
#[verifier::external_body]
pub fn lowercase(s: &str) -> (r: String)
    ensures
        r@ == lower_of(s@),
        s@.len() == 0 ==> r@.len() == 0,
{
    s.to_lowercase()
}

/// Whether `v` holds a string whose characters equal `k`.
pub open spec fn seq_has_string(s: Seq<String>, k: Seq<char>) -> bool {
    exists|i: int| 0 <= i < s.len() && s[i]@ == k
}

/// Membership test on a list of strings, by contents.
pub fn vec_has_string(v: &Vec<String>, k: &String) -> (r: bool)
    ensures
        r == seq_has_string(v@, k@),
{
    let mut i: usize = 0;
    while i < v.len()
        invariant
            i <= v@.len(),
            forall|j: int| 0 <= j < i ==> v@[j]@ != k@,
        decreases v@.len() - i,
    {
        if string_eq(&v[i], k) {
            return true;
        }
        i = i + 1;
    }
    false
}

/// `s` with every string whose characters equal `k` dropped.
pub open spec fn drop_string(s: Seq<String>, k: Seq<char>) -> Seq<String>
    decreases s.len(),
{
    if s.len() == 0 {
        Seq::empty()
    } else if s[0]@ == k {
        drop_string(s.drop_first(), k)
    } else {
        seq![s[0]] + drop_string(s.drop_first(), k)
    }
}

/// After dropping `k` it is gone; every other string's membership is kept.
pub proof fn lemma_drop_string_membership(s: Seq<String>, k: Seq<char>, k2: Seq<char>)
    ensures
        k2 == k ==> !seq_has_string(drop_string(s, k), k2),
        k2 != k ==> seq_has_string(drop_string(s, k), k2) == seq_has_string(s, k2),
    decreases s.len(),
{
    if s.len() > 0 {
        lemma_drop_string_membership(s.drop_first(), k, k2);
        let rest = drop_string(s.drop_first(), k);
        assert forall|i: int| 0 <= i < s.drop_first().len() implies s.drop_first()[i] == s[i + 1] by {}
        if s[0]@ == k {
            if k2 != k && seq_has_string(s, k2) {
                let i = choose|i: int| 0 <= i < s.len() && s[i]@ == k2;
                assert(s.drop_first()[i - 1]@ == k2);
            }
        } else {
            let whole = seq![s[0]] + rest;
            assert(whole[0] == s[0]);
            assert forall|i: int| 0 <= i < rest.len() implies whole[i + 1] == rest[i] by {}
            if seq_has_string(rest, k2) {
                let i = choose|i: int| 0 <= i < rest.len() && rest[i]@ == k2;
                assert(whole[i + 1]@ == k2);
            }
            if k2 != k {
                if seq_has_string(s, k2) {
                    let i = choose|i: int| 0 <= i < s.len() && s[i]@ == k2;
                    if i == 0 {
                        assert(whole[0]@ == k2);
                    } else {
                        assert(s.drop_first()[i - 1]@ == k2);
                    }
                }
                if seq_has_string(whole, k2) {
                    let i = choose|i: int| 0 <= i < whole.len() && whole[i]@ == k2;
                    if i == 0 {
                    } else {
                        assert(rest[i - 1]@ == k2);
                    }
                }
            }
            if k2 == k && seq_has_string(whole, k2) {
                let i = choose|i: int| 0 <= i < whole.len() && whole[i]@ == k2;
                assert(i > 0);
                assert(rest[i - 1]@ == k2);
            }
        }
    }
}

/// A copy of `v` without the strings whose characters equal `k`.
pub fn vec_filter_out_string(v: &Vec<String>, k: &String) -> (r: Vec<String>)
    ensures
        r@ == drop_string(v@, k@),
{
    let mut out: Vec<String> = Vec::new();
    proof {
        assert(v@.skip(0) =~= v@);
        assert(Seq::<String>::empty() + drop_string(v@, k@) =~= drop_string(v@, k@));
    }
    let mut i: usize = 0;
    while i < v.len()
        invariant
            i <= v@.len(),
            drop_string(v@, k@) == out@ + drop_string(v@.skip(i as int), k@),
        decreases v@.len() - i,
    {
        proof {
            assert(v@.skip(i as int)[0] == v@[i as int]);
            assert(v@.skip(i as int).drop_first() =~= v@.skip(i as int + 1));
        }
        if string_eq(&v[i], k) {
            // dropped
        } else {
            let ghost out_before = out@;
            out.push(v[i].clone());
            proof {
                assert(out@ + drop_string(v@.skip(i as int + 1), k@) =~= out_before + (seq![
                    v@[i as int],
                ] + drop_string(v@.skip(i as int + 1), k@)));
            }
        }
        i = i + 1;
    }
    proof {
        assert(drop_string(v@.skip(v@.len() as int), k@) =~= Seq::<String>::empty());
        assert(out@ + Seq::<String>::empty() =~= out@);
    }
    out
}

/// The view of an optional list of strings, kept optional.
pub open spec fn spec_opt_seq(o: Option<Vec<String>>) -> Option<Seq<String>> {
    match o {
        Option::Some(v) => Some(v@),
        Option::None => None,
    }
}

/// An exact copy of a list of strings.
pub fn clone_string_vec(v: &Vec<String>) -> (r: Vec<String>)
    ensures
        r@ == v@,
{
    let mut out: Vec<String> = Vec::new();
    let mut i: usize = 0;
    while i < v.len()
        invariant
            i <= v@.len(),
            out@ =~= v@.take(i as int),
        decreases v@.len() - i,
    {
        out.push(v[i].clone());
        proof {
            assert(out@ =~= v@.take(i as int + 1));
        }
        i = i + 1;
    }
    proof {
        assert(v@.take(v@.len() as int) =~= v@);
    }
    out
}

/// The views of a list of strings.
pub open spec fn seq_views(s: Seq<String>) -> Seq<Seq<char>> {
    s.map_values(|x: String| x@)
}

/// Pushing a string pushes its view.
pub proof fn lemma_seq_views_push(s: Seq<String>, x: String)
    ensures
        seq_views(s.push(x)) =~= seq_views(s).push(x@),
{
    assert forall|j: int| 0 <= j < s.len() + 1 implies seq_views(s.push(x))[j] == seq_views(
        s,
    ).push(x@)[j] by {
        if j < s.len() {
            assert(s.push(x)[j] == s[j]);
        } else {
            assert(s.push(x)[j] == x);
        }
    }
}

/// `s` joined by `sep`: empty for no parts, the parts with `sep` between
/// neighbours otherwise.
pub open spec fn spec_join(s: Seq<Seq<char>>, sep: Seq<char>) -> Seq<char>
    decreases s.len(),
{
    if s.len() == 0 {
        Seq::empty()
    } else if s.len() == 1 {
        s[0]
    } else {
        s[0] + sep + spec_join(s.drop_first(), sep)
    }
}

/// Appending one more part to a nonempty join adds a separator and the part.
pub proof fn lemma_join_push(s: Seq<Seq<char>>, sep: Seq<char>, x: Seq<char>)
    requires
        s.len() > 0,
    ensures
        spec_join(s.push(x), sep) == spec_join(s, sep) + sep + x,
    decreases s.len(),
{
    if s.len() == 1 {
        assert(s.push(x)[0] == s[0]);
        assert(s.push(x).drop_first() =~= seq![x]);
        assert(spec_join(seq![x], sep) == x);
        assert(spec_join(s.push(x), sep) == s[0] + sep + spec_join(seq![x], sep));
        assert(spec_join(s, sep) + sep + x =~= s[0] + sep + x);
    } else {
        assert(s.push(x)[0] == s[0]);
        assert(s.push(x).drop_first() =~= s.drop_first().push(x));
        lemma_join_push(s.drop_first(), sep, x);
        assert(spec_join(s.push(x), sep) =~= spec_join(s, sep) + sep + x);
    }
}

/// Joins the strings of `v` with `sep` between neighbours.
pub fn join_strings(v: &Vec<String>, sep: &str) -> (r: String)
    ensures
        r@ == spec_join(seq_views(v@), sep@),
{
    let ghost s = seq_views(v@);
    let mut r = String::new();
    let mut i: usize = 0;
    while i < v.len()
        invariant
            i <= v@.len(),
            s == seq_views(v@),
            r@ == spec_join(s.take(i as int), sep@),
        decreases v@.len() - i,
    {
        proof {
            assert(s.take(i as int).push(s[i as int]) =~= s.take(i as int + 1));
            if i > 0 {
                lemma_join_push(s.take(i as int), sep@, s[i as int]);
            }
        }
        if i > 0 {
            r.append(sep);
        }
        r.append(v[i].as_str());
        i = i + 1;
    }
    proof {
        assert(s.take(v@.len() as int) =~= s);
    }
    r
}

/// The decimal digits of `n`, most significant first.
pub open spec fn spec_digits(n: nat) -> Seq<char>
    decreases n,
{
    if n < 10 {
        seq![spec_digit_char(n)]
    } else {
        spec_digits(n / 10).push(spec_digit_char(n % 10))
    }
}

/// The character for a single decimal digit.
pub open spec fn spec_digit_char(d: nat) -> char {
    if d == 0 { '0' }
    else if d == 1 { '1' }
    else if d == 2 { '2' }
    else if d == 3 { '3' }
    else if d == 4 { '4' }
    else if d == 5 { '5' }
    else if d == 6 { '6' }
    else if d == 7 { '7' }
    else if d == 8 { '8' }
    else { '9' }
}

/// Renders one decimal digit.
fn digit_str(d: u64) -> (r: String)
    requires
        d < 10,
    ensures
        r@ == seq![spec_digit_char(d as nat)],
{
    let s = "0123456789";
    proof {
        reveal_strlit("0123456789");
    }
    let r = String::from_str(s.substring_ascii(d as usize, d as usize + 1));
    proof {
        assert(r@ =~= seq![spec_digit_char(d as nat)]);
    }
    r
}

/// Renders `n` in decimal.
pub fn u64_to_string(n: u64) -> (r: String)
    ensures
        r@ == spec_digits(n as nat),
    decreases n,
{
    if n < 10 {
        digit_str(n)
    } else {
        let high = u64_to_string(n / 10);
        let low = digit_str(n % 10);
        let r = high.concat(low.as_str());
        proof {
            assert(r@ =~= spec_digits(n as nat));
        }
        r
    }
}

} // verus!
