use vstd::prelude::*;

verus! {

/// Position of the last `/` in `s`, or -1 when there is none.
pub open spec fn last_slash(s: Seq<char>) -> int
    decreases s.len(),
{
    if s.len() == 0 {
        -1
    } else if s.last() == '/' {
        s.len() - 1
    } else {
        last_slash(s.drop_last())
    }
}

/// The last `/` in a text, if any, lies inside it.
pub proof fn lemma_last_slash_bounds(s: Seq<char>)
    ensures
        -1 <= last_slash(s) < s.len(),
    decreases s.len(),
{
    if s.len() > 0 && s.last() != '/' {
        lemma_last_slash_bounds(s.drop_last());
    }
}

/// The pieces of `s` between its `/` separators, in order (empty pieces
/// included).
pub open spec fn slash_pieces(s: Seq<char>) -> Seq<Seq<char>>
    decreases s.len(),
{
    let k = last_slash(s);
    if k < 0 {
        seq![s]
    } else {
        proof {
            lemma_last_slash_bounds(s);
        }
        slash_pieces(s.take(k)).push(s.skip(k + 1))
    }
}

/// The pieces that name something: empty pieces (repeated or trailing
/// separators) and `.` pieces are dropped.
pub open spec fn named_pieces(pieces: Seq<Seq<char>>) -> Seq<Seq<char>>
    decreases pieces.len(),
{
    if pieces.len() == 0 {
        Seq::empty()
    } else {
        named_pieces(pieces.drop_last()) + kept_piece(pieces.last())
    }
}

/// A piece as a one-element list when it names something, else nothing.
pub open spec fn kept_piece(piece: Seq<char>) -> Seq<Seq<char>> {
    if piece.len() == 0 || piece == seq!['.'] {
        Seq::empty()
    } else {
        seq![piece]
    }
}

/// The components of a Unix path, as `std::path::Path::components` gives
/// them: a root (`/`) when the path starts with one, else a leading `.` when
/// the path is `.` or starts with `./`, then every piece that names something
/// (`..` included).
pub open spec fn spec_path_components(s: Seq<char>) -> Seq<Seq<char>> {
    let head = if s.len() > 0 && s[0] == '/' {
        seq![seq!['/']]
    } else if s.len() > 0 && s[0] == '.' && (s.len() == 1 || s[1] == '/') {
        seq![seq!['.']]
    } else {
        Seq::empty()
    };
    head + named_pieces(slash_pieces(s))
}

proof fn lemma_pieces_push_slash(t: Seq<char>)
    ensures
        slash_pieces(t.push('/')) == slash_pieces(t).push(Seq::<char>::empty()),
{
    let u = t.push('/');
    assert(last_slash(u) == t.len());
    assert(u.take(t.len() as int) =~= t);
    assert(u.skip(t.len() as int + 1) =~= Seq::<char>::empty());
}

proof fn lemma_pieces_push_char(t: Seq<char>, c: char)
    requires
        c != '/',
    ensures
        slash_pieces(t.push(c)) == slash_pieces(t).drop_last().push(slash_pieces(t).last().push(c)),
{
    let u = t.push(c);
    assert(u.drop_last() =~= t);
    assert(last_slash(u) == last_slash(t));
    lemma_last_slash_bounds(t);
    let k = last_slash(t);
    if k < 0 {
        assert(slash_pieces(t).drop_last() =~= Seq::<Seq<char>>::empty());
        assert(seq![u] =~= Seq::<Seq<char>>::empty().push(t.push(c)));
    } else {
        assert(u.take(k) =~= t.take(k));
        assert(u.skip(k + 1) =~= t.skip(k + 1).push(c));
        assert(slash_pieces(t).drop_last() =~= slash_pieces(t.take(k)));
    }
}

fn keep_piece(piece: &str) -> (keep: bool)
    ensures
        keep == (kept_piece(piece@).len() == 1),
{
    let n = piece.unicode_len();
    if n == 0 {
        false
    } else if n == 1 && piece.get_char(0) == '.' {
        assert(piece@ =~= seq!['.']);
        false
    } else {
        true
    }
}

/// Splits a Unix path into its components (see [`spec_path_components`]).
pub fn path_components(s: &str) -> (parts: Vec<String>)
    ensures
        parts.deep_view() == spec_path_components(s@),
{
    let len = s.unicode_len();
    let mut parts: Vec<String> = Vec::new();
    let first = if len > 0 { s.get_char(0) } else { ' ' };
    let second_is_slash = len > 1 && s.get_char(1) == '/';
    if len > 0 && first == '/' {
        proof { reveal_strlit("/"); }
        let root = String::from_str("/");
        assert(root@ =~= seq!['/']);
        parts.push(root);
        assert(parts.deep_view() =~= seq![seq!['/']]);
    } else if len > 0 && first == '.' && (len == 1 || second_is_slash) {
        proof { reveal_strlit("."); }
        let cur_dir = String::from_str(".");
        assert(cur_dir@ =~= seq!['.']);
        parts.push(cur_dir);
        assert(parts.deep_view() =~= seq![seq!['.']]);
    } else {
        assert(parts.deep_view() =~= Seq::<Seq<char>>::empty());
    }
    let ghost head = parts.deep_view();
    proof {
        let expected = if s@.len() > 0 && s@[0] == '/' {
            seq![seq!['/']]
        } else if s@.len() > 0 && s@[0] == '.' && (s@.len() == 1 || s@[1] == '/') {
            seq![seq!['.']]
        } else {
            Seq::empty()
        };
        assert(head =~= expected);
    }
    let mut named: Vec<String> = Vec::new();
    let mut start: usize = 0;
    assert(s@.take(0) =~= Seq::<char>::empty());
    assert(last_slash(Seq::<char>::empty()) == -1);
    assert(s@.subrange(0, 0) =~= Seq::<char>::empty());
    for i in 0..len
        invariant
            len == s@.len(),
            start <= i,
            named.deep_view() == named_pieces(slash_pieces(s@.take(i as int)).drop_last()),
            s@.subrange(start as int, i as int) == slash_pieces(s@.take(i as int)).last(),
            slash_pieces(s@.take(i as int)).len() >= 1,
    {
        let c = s.get_char(i);
        let ghost t = s@.take(i as int);
        assert(s@.take(i + 1) =~= t.push(c));
        if c == '/' {
            proof {
                lemma_pieces_push_slash(t);
            }
            let piece = s.substring_char(start, i);
            let ghost before = named.deep_view();
            if keep_piece(piece) {
                named.push(String::from_str(piece));
            }
            proof {
                let p = slash_pieces(t);
                assert(p =~= p.drop_last().push(p.last()));
                assert(slash_pieces(t.push('/')).drop_last() =~= p);
                assert(named.deep_view() =~= before + kept_piece(p.last()));
                assert(s@.subrange(i + 1, i + 1) =~= Seq::<char>::empty());
            }
            start = i + 1;
        } else {
            proof {
                lemma_pieces_push_char(t, c);
                let p = slash_pieces(t);
                assert(slash_pieces(t.push(c)).drop_last() =~= p.drop_last());
                assert(s@.subrange(start as int, i + 1) =~= s@.subrange(start as int, i as int).push(c));
            }
        }
    }
    let piece = s.substring_char(start, len);
    let ghost before = named.deep_view();
    if keep_piece(piece) {
        named.push(String::from_str(piece));
    }
    proof {
        assert(s@.take(len as int) =~= s@);
        let p = slash_pieces(s@);
        assert(p =~= p.drop_last().push(p.last()));
        assert(named.deep_view() =~= named_pieces(p));
    }
    let ghost all_named = named.deep_view();
    for j in 0..named.len()
        invariant
            parts.deep_view() == head + all_named.take(j as int),
            all_named == named.deep_view(),
    {
        let ghost before = parts.deep_view();
        let piece = named[j].clone();
        assert(piece@ == all_named[j as int]);
        parts.push(piece);
        assert(parts.deep_view() =~= before.push(piece@));
        assert(all_named.take(j + 1) =~= all_named.take(j as int).push(all_named[j as int]));
        assert(parts.deep_view() =~= head + all_named.take(j + 1));
    }
    assert(all_named.take(named.len() as int) =~= all_named);
    parts
}

} // verus!

verus! {

/// Whether two Unix paths are the same path, as `Path`'s `==` decides it:
/// they have the same components.
pub fn same_path(a: &str, b: &str) -> (r: bool)
    ensures
        r == (spec_path_components(a@) == spec_path_components(b@)),
{
    let pa = path_components(a);
    let pb = path_components(b);
    if pa.len() != pb.len() {
        assert(pa.deep_view().len() != pb.deep_view().len());
        return false;
    }
    for i in 0..pa.len()
        invariant
            pa.len() == pb.len(),
            pa.deep_view() == spec_path_components(a@),
            pb.deep_view() == spec_path_components(b@),
            forall|j: int| 0 <= j < i ==> pa.deep_view()[j] == pb.deep_view()[j],
    {
        let equal = pa[i] == pb[i];
        assert(pa.deep_view()[i as int] == pa@[i as int]@);
        assert(pb.deep_view()[i as int] == pb@[i as int]@);
        if !equal {
            assert(pa.deep_view()[i as int] != pb.deep_view()[i as int]);
            return false;
        }
    }
    assert(pa.deep_view() =~= pb.deep_view());
    true
}

} // verus!

verus! {

/// Whether `s` contains no `/`.
pub open spec fn no_slash(s: Seq<char>) -> bool {
    forall|i: int| 0 <= i < s.len() ==> s[i] != '/'
}

proof fn lemma_no_slash_last(s: Seq<char>)
    requires
        no_slash(s),
    ensures
        last_slash(s) == -1,
    decreases s.len(),
{
    if s.len() > 0 {
        assert(no_slash(s.drop_last()));
        lemma_no_slash_last(s.drop_last());
    }
}

proof fn lemma_last_slash_after(a: Seq<char>, b: Seq<char>)
    requires
        no_slash(b),
    ensures
        last_slash(a.push('/') + b) == a.len(),
    decreases b.len(),
{
    let s = a.push('/') + b;
    if b.len() == 0 {
        assert(s =~= a.push('/'));
    } else {
        assert(s.last() == b.last());
        assert(s.drop_last() =~= a.push('/') + b.drop_last());
        assert(no_slash(b.drop_last()));
        lemma_last_slash_after(a, b.drop_last());
    }
}

/// A path without separators is a single component, written exactly as given
/// (the empty path has none).
pub proof fn lemma_single_component(s: Seq<char>)
    requires
        no_slash(s),
    ensures
        spec_path_components(s) == (if s.len() == 0 { Seq::<Seq<char>>::empty() } else { seq![s] }),
{
    lemma_no_slash_last(s);
    assert(slash_pieces(s) == seq![s]);
    assert(seq![s].drop_last() =~= Seq::<Seq<char>>::empty());
    assert(named_pieces(seq![s]) == named_pieces(Seq::<Seq<char>>::empty()) + kept_piece(s));
    if s.len() > 0 && s[0] == '.' && s.len() == 1 {
        assert(s =~= seq!['.']);
    }
    assert(spec_path_components(s) =~= (if s.len() == 0 { Seq::<Seq<char>>::empty() } else { seq![s] }));
}

/// Appending `/` and a separator-free name to a non-empty path appends that
/// name, verbatim, to its components; an empty name or `.` adds nothing.
pub proof fn lemma_components_append(a: Seq<char>, b: Seq<char>)
    requires
        a.len() > 0,
        no_slash(b),
    ensures
        spec_path_components(a.push('/') + b) == spec_path_components(a) + (if b.len() == 0
            || b == seq!['.'] { Seq::<Seq<char>>::empty() } else { seq![b] }),
{
    let s = a.push('/') + b;
    lemma_last_slash_after(a, b);
    lemma_last_slash_bounds(s);
    assert(s.take(a.len() as int) =~= a);
    assert(s.skip(a.len() as int + 1) =~= b);
    assert(slash_pieces(s) == slash_pieces(a).push(b));
    assert(slash_pieces(a).push(b).drop_last() =~= slash_pieces(a));
    assert(named_pieces(slash_pieces(s)) == named_pieces(slash_pieces(a)) + kept_piece(b));
    assert(s[0] == a[0]);
    if a.len() >= 2 {
        assert(s[1] == a[1]);
    } else {
        assert(s[1] == '/');
    }
    assert(spec_path_components(s) =~= spec_path_components(a) + kept_piece(b));
}

} // verus!
