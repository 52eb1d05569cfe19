use vstd::prelude::*;

verus! {

/// The text ends in a separator, or in a `.` segment after a separator.
pub open spec fn ends_in_separator_or_dot(s: Seq<char>) -> bool {
    (s.len() > 0 && s.last() == '/') || (s.len() >= 2 && s.last() == '.' && s[s.len() - 2] == '/')
}

/// The text with every trailing `/` and every trailing `.` segment removed
/// (a `.` that is not at the start of a path names no component).
pub open spec fn trim_trailing_slashes(s: Seq<char>) -> Seq<char>
    decreases s.len(),
{
    if ends_in_separator_or_dot(s) {
        trim_trailing_slashes(s.drop_last())
    } else {
        s
    }
}

/// What follows the last `/` of the text (the whole text when it holds none).
pub open spec fn last_segment(s: Seq<char>) -> Seq<char>
    decreases s.len(),
{
    if s.len() == 0 {
        s
    } else if s.last() == '/' {
        Seq::empty()
    } else {
        last_segment(s.drop_last()).push(s.last())
    }
}

/// The final name of a `/`-separated path, trailing separators and `.`
/// segments ignored. A path whose final segment is then empty, `.` or `..`
/// has no name.
pub open spec fn basename_of(s: Seq<char>) -> Option<Seq<char>> {
    let seg = last_segment(trim_trailing_slashes(s));
    if seg.len() == 0 || seg == seq!['.'] || seg == seq!['.', '.'] {
        None
    } else {
        Some(seg)
    }
}

/// Two path pieces put together with exactly one `/` between them.
/// An empty first piece leaves the second as it is.
pub open spec fn joined(a: Seq<char>, b: Seq<char>) -> Seq<char> {
    let b1 = if b.len() > 0 && b[0] == '/' { b.drop_first() } else { b };
    if a.len() == 0 {
        b
    } else if a.last() == '/' {
        a + b1
    } else {
        a + seq!['/'] + b1
    }
}

/// Relies on `String::push`: the character is appended at the end.
#[verifier::external_body]
pub(crate) fn push_char(s: &mut String, c: char)
    ensures
        final(s)@ == old(s)@.push(c),
{
    s.push(c)
}

/// The characters of a string, in order.
pub fn chars_of(s: &str) -> (r: Vec<char>)
    ensures
        r@ == s@,
{
    let mut r: Vec<char> = Vec::new();
    for c in it: s.chars()
        invariant
            it.seq() == s@,
            r@ == it.seq().subrange(0, it.index() as int),
    {
        r.push(c);
        proof {
            assert(r@ =~= it.seq().subrange(0, it.index() + 1));
        }
    }
    proof {
        assert(r@ =~= s@);
    }
    r
}

/// A string holding the characters `v[from..to]`.
fn string_of_range(v: &Vec<char>, from: usize, to: usize) -> (r: String)
    requires
        from <= to <= v.len(),
    ensures
        r@ == v@.subrange(from as int, to as int),
{
    let mut r = String::new();
    let mut i: usize = from;
    while i < to
        invariant
            from <= i <= to <= v.len(),
            r@ == v@.subrange(from as int, i as int),
        decreases to - i,
    {
        push_char(&mut r, v[i]);
        i = i + 1;
        proof {
            assert(r@ =~= v@.subrange(from as int, i as int));
        }
    }
    r
}

proof fn lemma_last_segment_step(s: Seq<char>, b: int, e: int)
    requires
        0 < b <= e <= s.len(),
        s[b - 1] != '/',
    ensures
        last_segment(s.subrange(0, b)) + s.subrange(b, e) == last_segment(s.subrange(0, b - 1))
            + s.subrange(b - 1, e),
{
    let sb = s.subrange(0, b);
    assert(sb.drop_last() =~= s.subrange(0, b - 1));
    assert(sb.last() == s[b - 1]);
    assert(last_segment(sb) == last_segment(s.subrange(0, b - 1)).push(s[b - 1]));
    assert(last_segment(s.subrange(0, b - 1)).push(s[b - 1]) + s.subrange(b, e)
        =~= last_segment(s.subrange(0, b - 1)) + s.subrange(b - 1, e));
}

/// The final name of a path (see `basename_of`).
pub fn path_basename(path: &str) -> (r: Option<String>)
    ensures
        r matches Some(n) ==> basename_of(path@) == Some(n@),
        r is None ==> basename_of(path@) is None,
{
    let v = chars_of(path);
    let mut e: usize = v.len();
    assert(v@.subrange(0, e as int) =~= v@);
    while e > 0 && (v[e - 1] == '/' || (e >= 2 && v[e - 1] == '.' && v[e - 2] == '/'))
        invariant
            e <= v.len(),
            v@ == path@,
            trim_trailing_slashes(v@) == trim_trailing_slashes(v@.subrange(0, e as int)),
        decreases e,
    {
        proof {
            assert(v@.subrange(0, e as int).drop_last() =~= v@.subrange(0, e - 1));
        }
        e = e - 1;
    }
    let ghost t = v@.subrange(0, e as int);
    assert(trim_trailing_slashes(v@) == t);
    let mut b: usize = e;
    while b > 0 && v[b - 1] != '/'
        invariant
            b <= e <= v.len(),
            t == v@.subrange(0, e as int),
            last_segment(t) == last_segment(v@.subrange(0, b as int)) + v@.subrange(
                b as int,
                e as int,
            ),
        decreases b,
    {
        proof {
            lemma_last_segment_step(v@, b as int, e as int);
        }
        b = b - 1;
    }
    proof {
        let sb = v@.subrange(0, b as int);
        if b > 0 {
            assert(sb.last() == '/');
        }
        assert(last_segment(sb) =~= Seq::<char>::empty());
        assert(last_segment(t) =~= v@.subrange(b as int, e as int));
    }
    let len = e - b;
    if len == 0 || (len == 1 && v[b] == '.') || (len == 2 && v[b] == '.' && v[b + 1] == '.') {
        proof {
            let seg = v@.subrange(b as int, e as int);
            if len == 1 {
                assert(seg =~= seq!['.']);
            }
            if len == 2 {
                assert(seg =~= seq!['.', '.']);
            }
        }
        None
    } else {
        proof {
            let seg = v@.subrange(b as int, e as int);
            if seg == seq!['.'] {
                assert(seg.len() == 1 && seg[0] == v[b as int]);
            }
            if seg == seq!['.', '.'] {
                assert(seg.len() == 2 && seg[0] == v[b as int] && seg[1] == v[b + 1]);
            }
        }
        Some(string_of_range(&v, b, e))
    }
}

/// Whether `s` begins with `prefix`.
pub fn starts_with(s: &str, prefix: &str) -> (r: bool)
    ensures
        r == (prefix@.len() <= s@.len() && s@.subrange(0, prefix@.len() as int) == prefix@),
{
    let a = chars_of(s);
    let p = chars_of(prefix);
    if p.len() > a.len() {
        return false;
    }
    let mut i: usize = 0;
    while i < p.len()
        invariant
            i <= p.len() <= a.len(),
            a@ == s@,
            p@ == prefix@,
            forall|k: int| 0 <= k < i ==> a@[k] == p@[k],
        decreases p.len() - i,
    {
        if a[i] != p[i] {
            proof {
                assert(s@.subrange(0, p@.len() as int)[i as int] != prefix@[i as int]);
            }
            return false;
        }
        i = i + 1;
    }
    proof {
        assert(s@.subrange(0, prefix@.len() as int) =~= prefix@);
    }
    true
}

/// Puts two path pieces together with one `/` between them (see `joined`).
pub fn join_path(a: &str, b: &str) -> (r: String)
    ensures
        r@ == joined(a@, b@),
{
    let av = chars_of(a);
    let bv = chars_of(b);
    let rest = if bv.len() > 0 && bv[0] == '/' {
        string_of_range(&bv, 1, bv.len())
    } else {
        string_of_range(&bv, 0, bv.len())
    };
    proof {
        assert(bv@.subrange(0, bv@.len() as int) =~= b@);
        assert(bv@.subrange(1, bv@.len() as int) =~= b@.drop_first() || !(bv.len() > 0));
    }
    if av.len() == 0 {
        return String::from_str(b);
    }
    let mut r = String::from_str(a);
    if av[av.len() - 1] != '/' {
        push_char(&mut r, '/');
    }
    r.append(rest.as_str());
    r
}

} // verus!
