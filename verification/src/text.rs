use vstd::prelude::*;

verus! {

/// ASCII lowercasing of one character: uppercase letters shift down by 32,
/// everything else is unchanged.
pub open spec fn lower_char(c: char) -> char {
    if 65 <= c as int && c as int <= 90 {
        (((c as u8) + 32) as u8) as char
    } else {
        c
    }
}

/// ASCII lowercasing of a character sequence, position by position.
pub open spec fn lower_seq(s: Seq<char>) -> Seq<char> {
    s.map_values(|c: char| lower_char(c))
}

/// Relies on str::to_ascii_lowercase: the result has the same characters in
/// the same order, with ASCII uppercase letters replaced by their lowercase
/// counterparts and every other character unchanged.
#[verifier::external_body]
pub fn ascii_lower(s: &str) -> (r: String)
    ensures
        r@ == lower_seq(s@),
{
    s.to_ascii_lowercase()
}

/// Lexicographic order on character sequences by scalar value: the empty
/// sequence precedes everything, otherwise the first differing position
/// decides, and a prefix precedes its extensions.
pub open spec fn lex_le(a: Seq<char>, b: Seq<char>) -> bool
    decreases a.len(),
{
    if a.len() == 0 {
        true
    } else if b.len() == 0 {
        false
    } else if (a[0] as int) < (b[0] as int) {
        true
    } else if (a[0] as int) > (b[0] as int) {
        false
    } else {
        lex_le(a.drop_first(), b.drop_first())
    }
}

/// Any two sequences compare one way or the other under [`lex_le`].
pub proof fn lemma_lex_le_total(a: Seq<char>, b: Seq<char>)
    ensures
        lex_le(a, b) || lex_le(b, a),
    decreases a.len(),
{
    if a.len() == 0 {
    } else if b.len() == 0 {
    } else if (a[0] as int) == (b[0] as int) {
        lemma_lex_le_total(a.drop_first(), b.drop_first());
    }
}

/// [`lex_le`] is transitive.
pub proof fn lemma_lex_le_trans(a: Seq<char>, b: Seq<char>, c: Seq<char>)
    requires
        lex_le(a, b),
        lex_le(b, c),
    ensures
        lex_le(a, c),
    decreases a.len(),
{
    if a.len() == 0 {
    } else if b.len() == 0 {
    } else if c.len() == 0 {
    } else if (a[0] as int) == (b[0] as int) && (b[0] as int) == (c[0] as int) {
        lemma_lex_le_trans(a.drop_first(), b.drop_first(), c.drop_first());
    }
}

/// The case-insensitive name order used for directory listings: compare the
/// ASCII-lowercased names lexicographically.
pub open spec fn name_le_spec(a: Seq<char>, b: Seq<char>) -> bool {
    lex_le(lower_seq(a), lower_seq(b))
}

/// The sort key of one character: its scalar value after ASCII lowercasing.
fn char_key(c: char) -> (k: u32)
    ensures
        k == lower_char(c) as u32,
{
    let u = c as u32;
    if 65 <= u && u <= 90 {
        u + 32
    } else {
        u
    }
}

/// Case-insensitive name comparison, the executable side of
/// [`name_le_spec`].
pub fn name_le(a: &str, b: &str) -> (r: bool)
    ensures
        r == name_le_spec(a@, b@),
{
    let alen = a.unicode_len();
    let blen = b.unicode_len();
    let ghost la = lower_seq(a@);
    let ghost lb = lower_seq(b@);
    let mut i: usize = 0;
    proof {
        assert(la.skip(0) =~= la);
        assert(lb.skip(0) =~= lb);
    }
    while i < alen && i < blen
        invariant
            i <= alen,
            i <= blen,
            alen == a@.len(),
            blen == b@.len(),
            la == lower_seq(a@),
            lb == lower_seq(b@),
            lex_le(la, lb) == lex_le(la.skip(i as int), lb.skip(i as int)),
        decreases alen - i,
    {
        let ca = char_key(a.get_char(i));
        let cb = char_key(b.get_char(i));
        proof {
            assert(la.skip(i as int)[0] == lower_char(a@[i as int]));
            assert(lb.skip(i as int)[0] == lower_char(b@[i as int]));
        }
        if ca < cb {
            return true;
        }
        if ca > cb {
            return false;
        }
        proof {
            assert(la.skip(i as int).drop_first() =~= la.skip(i + 1));
            assert(lb.skip(i as int).drop_first() =~= lb.skip(i + 1));
        }
        i = i + 1;
    }
    if i < blen {
        proof {
            assert(la.skip(i as int).len() == 0);
        }
        true
    } else if i < alen {
        proof {
            assert(lb.skip(i as int).len() == 0);
            assert(la.skip(i as int).len() > 0);
        }
        false
    } else {
        proof {
            assert(la.skip(i as int).len() == 0);
        }
        true
    }
}

/// The characters after the last occurrence of `sep`, or `None` when `sep`
/// does not occur.
pub open spec fn suffix_after_last(sep: char, s: Seq<char>) -> Option<Seq<char>>
    decreases s.len(),
{
    if s.len() == 0 {
        None
    } else if s.last() == sep {
        Some(Seq::empty())
    } else {
        match suffix_after_last(sep, s.drop_last()) {
            None => None,
            Some(t) => Some(t.push(s.last())),
        }
    }
}

proof fn lemma_suffix_after_last_none(sep: char, s: Seq<char>)
    requires
        forall|t: int| 0 <= t < s.len() ==> s[t] != sep,
    ensures
        suffix_after_last(sep, s) is None,
    decreases s.len(),
{
    if s.len() > 0 {
        lemma_suffix_after_last_none(sep, s.drop_last());
    }
}

proof fn lemma_suffix_after_last_found(sep: char, s: Seq<char>, j: int)
    requires
        0 <= j < s.len(),
        s[j] == sep,
        forall|t: int| j < t < s.len() ==> s[t] != sep,
    ensures
        suffix_after_last(sep, s) == Some(s.skip(j + 1)),
    decreases s.len(),
{
    if j == s.len() - 1 {
        assert(s.skip(j + 1) =~= Seq::<char>::empty());
    } else {
        lemma_suffix_after_last_found(sep, s.drop_last(), j);
        assert(s.drop_last().skip(j + 1).push(s.last()) =~= s.skip(j + 1));
    }
}

/// Path-style extension of a file name: the part after the last dot, except
/// that a name with no dot, or whose only dot is its leading character, has
/// none (reported as the empty extension).
pub open spec fn spec_extension(name: Seq<char>) -> Seq<char> {
    match suffix_after_last('.', name) {
        None => Seq::empty(),
        Some(s) => if s.len() == name.len() - 1 {
            Seq::empty()
        } else {
            s
        },
    }
}

/// The extension of a file name, as [`spec_extension`] states it (not yet
/// lowercased).
pub fn extension_of(name: &str) -> (ext: String)
    ensures
        ext@ == spec_extension(name@),
{
    let n = name.unicode_len();
    let mut j: usize = n;
    while j > 0
        invariant
            j <= n,
            n == name@.len(),
            forall|t: int| j <= t < n ==> name@[t] != '.',
        decreases j,
    {
        if name.get_char(j - 1) == '.' {
            proof {
                lemma_suffix_after_last_found('.', name@, j - 1);
            }
            if j - 1 == 0 {
                proof {
                    assert(name@.skip(j as int).len() == n - 1);
                }
                return String::new();
            }
            let suf = name.substring_char(j, n);
            proof {
                assert(name@.skip(j as int) =~= name@.subrange(j as int, n as int));
            }
            return String::from_str(suf);
        }
        j = j - 1;
    }
    proof {
        lemma_suffix_after_last_none('.', name@);
    }
    String::new()
}

/// The display name of a path: the part after the last `/` when it is
/// nonempty, otherwise the whole path (a root or separator-terminated path
/// has no better short name).
pub open spec fn spec_file_name(path: Seq<char>) -> Seq<char> {
    match suffix_after_last('/', path) {
        None => path,
        Some(s) => if s.len() == 0 {
            path
        } else {
            s
        },
    }
}

/// The display name of a path, as [`spec_file_name`] states it.
pub fn file_name_of(path: &str) -> (name: String)
    ensures
        name@ == spec_file_name(path@),
{
    let n = path.unicode_len();
    let mut j: usize = n;
    while j > 0
        invariant
            j <= n,
            n == path@.len(),
            forall|t: int| j <= t < n ==> path@[t] != '/',
        decreases j,
    {
        if path.get_char(j - 1) == '/' {
            proof {
                lemma_suffix_after_last_found('/', path@, j - 1);
            }
            if j == n {
                return String::from_str(path);
            }
            let suf = path.substring_char(j, n);
            proof {
                assert(path@.skip(j as int) =~= path@.subrange(j as int, n as int));
            }
            return String::from_str(suf);
        }
        j = j - 1;
    }
    proof {
        lemma_suffix_after_last_none('/', path@);
    }
    String::from_str(path)
}

} // verus!
