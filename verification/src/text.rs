use vstd::prelude::*;
use vstd::string::*;
use vstd::multiset::Multiset;

verus! {

/// Character-wise equality of two string slices.
pub fn str_eq(a: &str, b: &str) -> (r: bool)
    ensures
        r == (a@ == b@),
{
    let alen = a.unicode_len();
    let blen = b.unicode_len();
    if alen != blen {
        return false;
    }
    let mut i: usize = 0;
    while i < alen
        invariant
            i <= alen,
            alen == a@.len(),
            alen == b@.len(),
            forall|k: int| 0 <= k < i ==> a@[k] == b@[k],
        decreases alen - i,
    {
        if a.get_char(i) != b.get_char(i) {
            return false;
        }
        i = i + 1;
    }
    proof {
        assert(a@ =~= b@);
    }
    true
}

/// Joins two path fragments with a single separator between them.
pub fn join_path(base: &str, seg: &str) -> (r: String)
    ensures
        r@ == base@ + "/"@ + seg@,
{
    String::from_str(base).concat("/").concat(seg)
}

/// Holds when `i` is the position of the last slash of `s`.
pub open spec fn last_slash_at(s: Seq<char>, i: int) -> bool {
    &&& 0 <= i < s.len()
    &&& s[i] == '/'
    &&& forall|k: int| i < k < s.len() ==> s[k] != '/'
}

/// Holds when `s` contains a slash at all.
pub open spec fn has_slash(s: Seq<char>) -> bool {
    exists|i: int| last_slash_at(s, i)
}

/// The text after the last slash of `s`, or all of `s` if it has none.
pub open spec fn spec_last_segment(s: Seq<char>) -> Seq<char> {
    if has_slash(s) {
        s.skip((choose|i: int| last_slash_at(s, i)) + 1)
    } else {
        s
    }
}

/// At most one position can carry the last slash.
proof fn lemma_last_slash_unique(s: Seq<char>, i: int, j: int)
    requires
        last_slash_at(s, i),
        last_slash_at(s, j),
    ensures
        i == j,
{
    if i < j {
        assert(s[j] != '/');
    } else if j < i {
        assert(s[i] != '/');
    }
}

/// The text after the last slash, or the whole string if it has none.
pub fn last_segment(s: &str) -> (r: String)
    ensures
        r@ == spec_last_segment(s@),
{
    let len = s.unicode_len();
    let mut i: usize = len;
    let mut found: bool = false;
    while i > 0 && !found
        invariant
            i <= len,
            len == s@.len(),
            !found ==> forall|k: int| i <= k < len ==> s@[k] != '/',
            found ==> 0 < i && s@[i - 1] == '/' && (forall|k: int| i <= k < len ==> s@[k] != '/'),
        decreases i, (if found { 0int } else { 1int }),
    {
        if s.get_char(i - 1) == '/' {
            found = true;
        } else {
            i = i - 1;
        }
    }
    if found {
        proof {
            assert(last_slash_at(s@, i - 1));
            lemma_last_slash_unique(s@, i - 1, choose|j: int| last_slash_at(s@, j));
        }
        let seg = s.substring_char(i, len);
        proof {
            assert(seg@ =~= s@.skip(i as int));
        }
        String::from_str(seg)
    } else {
        proof {
            assert(!has_slash(s@)) by {
                if has_slash(s@) {
                    let j = choose|j: int| last_slash_at(s@, j);
                    assert(s@[j] != '/');
                }
            }
        }
        String::from_str(s)
    }
}

/// Lexicographic order on text, by character value; a prefix comes first.
pub open spec fn lex_le(a: Seq<char>, b: Seq<char>) -> bool
    decreases a.len(),
{
    if a.len() == 0 {
        true
    } else if b.len() == 0 {
        false
    } else if (a[0] as u32) != (b[0] as u32) {
        (a[0] as u32) < (b[0] as u32)
    } else {
        lex_le(a.drop_first(), b.drop_first())
    }
}

/// The order holds one way or the other between any two pieces of text.
pub proof fn lemma_lex_le_total(a: Seq<char>, b: Seq<char>)
    ensures
        lex_le(a, b) || lex_le(b, a),
    decreases a.len(),
{
    if a.len() > 0 && b.len() > 0 && (a[0] as u32) == (b[0] as u32) {
        lemma_lex_le_total(a.drop_first(), b.drop_first());
    }
}

/// The order is transitive.
pub proof fn lemma_lex_le_trans(a: Seq<char>, b: Seq<char>, c: Seq<char>)
    requires
        lex_le(a, b),
        lex_le(b, c),
    ensures
        lex_le(a, c),
    decreases a.len(),
{
    if a.len() > 0 && b.len() > 0 && c.len() > 0 && (a[0] as u32) == (b[0] as u32) && (b[0] as u32)
        == (c[0] as u32) {
        lemma_lex_le_trans(a.drop_first(), b.drop_first(), c.drop_first());
    }
}

/// Whether `a` comes no later than `b` in lexicographic order.
pub fn str_le(a: &str, b: &str) -> (r: bool)
    ensures
        r == lex_le(a@, b@),
{
    let alen = a.unicode_len();
    let blen = b.unicode_len();
    let mut i: usize = 0;
    proof {
        assert(a@.skip(0) =~= a@);
        assert(b@.skip(0) =~= b@);
    }
    while i < alen && i < blen
        invariant
            i <= alen,
            i <= blen,
            alen == a@.len(),
            blen == b@.len(),
            lex_le(a@, b@) == lex_le(a@.skip(i as int), b@.skip(i as int)),
        decreases alen - i,
    {
        let ca = a.get_char(i);
        let cb = b.get_char(i);
        proof {
            assert(a@.skip(i as int)[0] == a@[i as int]);
            assert(b@.skip(i as int)[0] == b@[i as int]);
            assert(a@.skip(i as int).drop_first() =~= a@.skip(i + 1));
            assert(b@.skip(i as int).drop_first() =~= b@.skip(i + 1));
        }
        if (ca as u32) < (cb as u32) {
            return true;
        }
        if (ca as u32) > (cb as u32) {
            return false;
        }
        i = i + 1;
    }
    proof {
        if i == alen {
            assert(a@.skip(i as int).len() == 0);
        } else {
            assert(b@.skip(i as int).len() == 0);
            assert(a@.skip(i as int).len() > 0);
        }
    }
    i >= alen
}

/// Text sorted lexicographically, earliest first.
pub open spec fn sorted_lex(s: Seq<Seq<char>>) -> bool {
    forall|i: int, j: int| 0 <= i < j < s.len() ==> lex_le(s[i], s[j])
}

/// The texts of a sequence of strings.
pub open spec fn views_of(v: Seq<String>) -> Seq<Seq<char>> {
    v.map_values(|s: String| s@)
}

/// Inserting anywhere adds exactly one occurrence to a sequence's multiset.
proof fn lemma_insert_to_multiset<A>(s: Seq<A>, p: int, e: A)
    requires
        0 <= p <= s.len(),
    ensures
        s.insert(p, e).to_multiset() =~= s.to_multiset().insert(e),
    decreases s.len(),
{
    broadcast use vstd::seq_lib::group_to_multiset_ensures;
    broadcast use vstd::multiset::group_multiset_axioms;

    if p == s.len() {
        assert(s.insert(p, e) =~= s.push(e));
    } else {
        let dl = s.drop_last();
        lemma_insert_to_multiset(dl, p, e);
        assert(s.insert(p, e) =~= dl.insert(p, e).push(s.last()));
        assert(s =~= dl.push(s.last()));
    }
}

/// Inserts `x` into the sorted vector `r`, keeping it sorted; the contents
/// gain exactly `x`.
fn insert_sorted(r: &mut Vec<String>, x: String)
    requires
        sorted_lex(views_of(old(r)@)),
    ensures
        sorted_lex(views_of(final(r)@)),
        views_of(final(r)@).to_multiset() =~= views_of(old(r)@).to_multiset().insert(x@),
{
    let mut p: usize = 0;
    while p < r.len() && str_le(r[p].as_str(), x.as_str())
        invariant
            p <= r@.len(),
            r@ == old(r)@,
            forall|k: int| 0 <= k < p ==> lex_le(#[trigger] r@[k]@, x@),
        decreases r@.len() - p,
    {
        p = p + 1;
    }
    proof {
        if p < r@.len() {
            lemma_lex_le_total(r@[p as int]@, x@);
        }
    }
    let ghost pre = r@;
    let ghost pi = p as int;
    r.insert(p, x);
    proof {
        let vold = views_of(pre);
        let vnew = views_of(r@);
        assert(vnew =~= vold.insert(pi, x@));
        lemma_insert_to_multiset(vold, pi, x@);
        assert forall|i: int, j: int| 0 <= i < j < vnew.len() implies lex_le(
            vnew[i],
            vnew[j],
        ) by {
            if i < pi && j < pi {
                assert(lex_le(vold[i], vold[j]));
            } else if i < pi && j == pi {
                assert(lex_le(pre[i]@, x@));
            } else if i < pi && j > pi {
                assert(lex_le(vold[i], vold[j - 1]));
            } else if i == pi && j > pi {
                if j - 1 > pi {
                    assert(lex_le(vold[pi], vold[j - 1]));
                    lemma_lex_le_trans(x@, vold[pi], vold[j - 1]);
                }
            } else {
                assert(lex_le(vold[i - 1], vold[j - 1]));
            }
        }
    }
}

/// Sorts paths lexicographically; the result holds exactly the same texts.
pub fn sort_paths(v: Vec<String>) -> (r: Vec<String>)
    ensures
        sorted_lex(views_of(r@)),
        views_of(r@).to_multiset() =~= views_of(v@).to_multiset(),
{
    broadcast use vstd::seq_lib::group_to_multiset_ensures;
    broadcast use vstd::multiset::group_multiset_axioms;

    let mut src = v;
    let mut r: Vec<String> = Vec::new();
    proof {
        assert(views_of(r@) =~= Seq::<Seq<char>>::empty());
    }
    while src.len() > 0
        invariant
            sorted_lex(views_of(r@)),
            views_of(r@).to_multiset().add(views_of(src@).to_multiset()) =~= views_of(
                v@,
            ).to_multiset(),
        decreases src@.len(),
    {
        broadcast use vstd::seq_lib::group_to_multiset_ensures;
        broadcast use vstd::multiset::group_multiset_axioms;

        let ghost pre_src = src@;
        let x = src.pop().unwrap();
        proof {
            assert(views_of(pre_src) =~= views_of(src@).push(x@));
        }
        insert_sorted(&mut r, x);
    }
    proof {
        assert(views_of(src@) =~= Seq::<Seq<char>>::empty());
        assert(views_of(src@).to_multiset() =~= Multiset::<Seq<char>>::empty());
        assert(views_of(r@).to_multiset() =~= views_of(v@).to_multiset());
    }
    r
}

/// The sixteen digits used for lowercase hexadecimal text.
pub open spec fn hex_digits() -> Seq<char> {
    "0123456789abcdef"@
}

/// The two-digit lowercase hexadecimal rendering of one byte.
pub open spec fn hex_of_byte(b: u8) -> Seq<char> {
    seq![hex_digits()[b as int / 16], hex_digits()[b as int % 16]]
}

/// The lowercase hexadecimal rendering of a byte sequence, two digits per byte.
pub open spec fn hex_of(bytes: Seq<u8>) -> Seq<char>
    decreases bytes.len(),
{
    if bytes.len() == 0 {
        Seq::empty()
    } else {
        hex_of(bytes.drop_last()) + hex_of_byte(bytes.last())
    }
}

pub proof fn lemma_hex_of_len(bytes: Seq<u8>)
    ensures
        hex_of(bytes).len() == 2 * bytes.len(),
    decreases bytes.len(),
{
    if bytes.len() > 0 {
        lemma_hex_of_len(bytes.drop_last());
    }
}

/// Renders a byte vector as lowercase hexadecimal text.
pub fn to_hex(bytes: &Vec<u8>) -> (r: String)
    ensures
        r@ == hex_of(bytes@),
        r@.len() == 2 * bytes@.len(),
{
    let digits = "0123456789abcdef";
    proof {
        reveal_strlit("0123456789abcdef");
    }
    let mut r = String::new();
    let mut i: usize = 0;
    while i < bytes.len()
        invariant
            i <= bytes@.len(),
            digits@ == hex_digits(),
            digits@.len() == 16,
            r@ == hex_of(bytes@.take(i as int)),
        decreases bytes@.len() - i,
    {
        let b = bytes[i];
        let hi = (b / 16) as usize;
        let lo = (b % 16) as usize;
        r.append(digits.substring_char(hi, hi + 1));
        r.append(digits.substring_char(lo, lo + 1));
        proof {
            assert(bytes@.take(i + 1).drop_last() =~= bytes@.take(i as int));
            assert(bytes@.take(i + 1).last() == bytes@[i as int]);
            assert(digits@.subrange(hi as int, hi + 1) + digits@.subrange(lo as int, lo + 1)
                =~= hex_of_byte(b));
        }
        i = i + 1;
    }
    proof {
        assert(bytes@.take(bytes@.len() as int) =~= bytes@);
        lemma_hex_of_len(bytes@);
    }
    r
}

} // verus!
