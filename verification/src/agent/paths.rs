//! Absolute paths as text.
use crate::error::{Error, ErrorView};
use crate::text::{begins, chars_of, same, starts_with, string_of, views};
use vstd::prelude::*;

verus! {

/// How many characters stand before the first separator.
pub open spec fn piece_len(s: Seq<char>) -> nat
    decreases s.len(),
{
    if s.len() == 0 || s[0] == '/' {
        0
    } else {
        1 + piece_len(s.drop_first())
    }
}

proof fn lemma_piece_len(s: Seq<char>)
    ensures
        piece_len(s) <= s.len(),
        forall|i: int| 0 <= i < piece_len(s) ==> s[i] != '/',
        piece_len(s) < s.len() ==> s[piece_len(s) as int] == '/',
    decreases s.len(),
{
    if s.len() > 0 && s[0] != '/' {
        let rest = s.drop_first();
        lemma_piece_len(rest);
        assert forall|i: int| 0 <= i < piece_len(s) implies s[i] != '/' by {
            if i > 0 {
                assert(rest[i - 1] == s[i]);
            }
        }
        if piece_len(s) < s.len() {
            assert(rest[piece_len(rest) as int] == s[piece_len(s) as int]);
        }
    }
}

proof fn lemma_piece_len_at(s: Seq<char>, n: int)
    requires
        0 <= n <= s.len(),
        forall|i: int| 0 <= i < n ==> s[i] != '/',
        n < s.len() ==> s[n] == '/',
    ensures
        piece_len(s) == n,
{
    lemma_piece_len(s);
    let k = piece_len(s) as int;
    if k < n {
        assert(s[k] != '/');
    } else if k > n {
        assert(s[n] != '/');
    }
}

/// The names between the separators; an empty name and a single dot say nothing.
pub open spec fn segments(s: Seq<char>) -> Seq<Seq<char>>
    decreases s.len(),
    via segments_decreases
{
    let k = piece_len(s) as int;
    let head = s.take(k);
    let rest = if k < s.len() {
        segments(s.skip(k + 1))
    } else {
        Seq::empty()
    };
    if head.len() == 0 || head == "."@ {
        rest
    } else {
        seq![head] + rest
    }
}

#[via_fn]
proof fn segments_decreases(s: Seq<char>) {
    lemma_piece_len(s);
}

/// The names between the separators of `path`.
pub fn split(path: &str) -> (res: Vec<String>)
    ensures
        views(res@) == segments(path@),
{
    let v = chars_of(path);
    let mut out: Vec<String> = Vec::new();
    let mut start: usize = 0;
    proof {
        assert(v@.skip(0) =~= v@);
        assert(views(out@) + segments(v@.skip(0)) =~= segments(v@));
    }
    loop
        invariant_except_break
            start <= v.len(),
            views(out@) + segments(v@.skip(start as int)) == segments(v@),
        invariant
            v@ == path@,
        ensures
            views(out@) == segments(v@),
        decreases v.len() - start,
    {
        let mut end: usize = start;
        while end < v.len() && v[end] != '/'
            invariant
                start <= end <= v.len(),
                forall|i: int| start <= i < end ==> v@[i] != '/',
            decreases v.len() - end,
        {
            end = end + 1;
        }
        let piece = string_of(&v, start, end);
        let ghost s = v@.skip(start as int);
        proof {
            assert forall|i: int| 0 <= i < end - start implies s[i] != '/' by {
                assert(s[i] == v@[start + i]);
            }
            lemma_piece_len_at(s, end - start);
            assert(s.take(end - start) =~= piece@);
        }
        let ghost before = views(out@);
        let ghost rest = if end < v@.len() {
            segments(v@.skip(end + 1))
        } else {
            Seq::empty()
        };
        proof {
            if end < v@.len() {
                assert(s.skip(end - start + 1) =~= v@.skip(end + 1));
            }
            reveal_strlit("");
            assert(piece@.len() == 0 ==> piece@ =~= ""@);
        }
        if !same(piece.as_str(), "") && !same(piece.as_str(), ".") {
            out.push(piece);
            proof {
                assert(views(out@) =~= before.push(piece@));
                assert(before + (seq![piece@] + rest) =~= views(out@) + rest);
            }
        }
        if end == v.len() {
            assert(views(out@) + rest =~= views(out@));
            break;
        }
        start = end + 1;
    }
    out
}

/// The path of `name` in the directory `dir`.
pub open spec fn entry_of(dir: Seq<char>, name: Seq<char>) -> Seq<char> {
    if dir.len() > 0 && dir.last() == '/' {
        dir + name
    } else {
        dir + "/"@ + name
    }
}

/// The path of `name` in the directory `dir`.
pub fn join(dir: &str, name: &str) -> (res: String)
    ensures
        res@ == entry_of(dir@, name@),
{
    let v = chars_of(dir);
    let mut out = dir.to_owned();
    if !(v.len() > 0 && v[v.len() - 1] == '/') {
        out.append("/");
    }
    out.append(name);
    out
}

/// The names that lead from the directory `root` to `path`, where `path` is `root` or below it.
pub open spec fn beneath(root: Seq<char>, path: Seq<char>) -> Option<Seq<Seq<char>>> {
    let base = segments(root);
    let all = segments(path);
    if begins(root, "/"@) && begins(path, "/"@) && base.len() <= all.len() && all.take(
        base.len() as int,
    ) == base {
        Some(all.skip(base.len() as int))
    } else {
        None
    }
}

/// A list of names, by their views.
pub open spec fn names_of(names: Option<Vec<String>>) -> Option<Seq<Seq<char>>> {
    match names {
        Some(names) => Some(views(names@)),
        None => None,
    }
}

/// The names that lead from the directory `root` to `path`.
pub fn relative(root: &str, path: &str) -> (res: Option<Vec<String>>)
    ensures
        names_of(res) == beneath(root@, path@),
{
    if !starts_with(root, "/") || !starts_with(path, "/") {
        return None;
    }
    let base = split(root);
    let all = split(path);
    if base.len() > all.len() {
        return None;
    }
    let ghost short = segments(root@);
    let ghost long = segments(path@);
    let mut i: usize = 0;
    while i < base.len()
        invariant
            i <= base.len(),
            base.len() <= all.len(),
            short == views(base@),
            long == views(all@),
            short == segments(root@),
            long == segments(path@),
            forall|j: int| 0 <= j < i ==> short[j] == long[j],
        decreases base.len() - i,
    {
        assert(short[i as int] == base@[i as int]@);
        assert(long[i as int] == all@[i as int]@);
        if !same(base[i].as_str(), all[i].as_str()) {
            assert(long.take(short.len() as int)[i as int] == long[i as int]);
            return None;
        }
        i = i + 1;
    }
    assert(long.take(short.len() as int) =~= short);
    let mut out: Vec<String> = Vec::new();
    let mut k: usize = base.len();
    while k < all.len()
        invariant
            base.len() <= k <= all.len(),
            out.len() == k - base.len(),
            long == views(all@),
            forall|j: int| 0 <= j < out.len() ==> (#[trigger] out@[j])@ == long[base.len() + j],
        decreases all.len() - k,
    {
        assert(long[k as int] == all@[k as int]@);
        out.push(all[k].clone());
        k = k + 1;
    }
    assert(views(out@) =~= long.skip(short.len() as int));
    Some(out)
}

/// The path `n` names down from `root`.
pub open spec fn descended(root: Seq<char>, names: Seq<Seq<char>>, n: nat) -> Seq<char>
    decreases n,
{
    if n == 0 {
        root
    } else {
        entry_of(descended(root, names, (n - 1) as nat), names[n - 1])
    }
}

/// The directories between `root` and the last of `names`.
pub open spec fn between(root: Seq<char>, names: Seq<Seq<char>>) -> Seq<Seq<char>> {
    Seq::new(
        if names.len() > 0 {
            (names.len() - 1) as nat
        } else {
            0
        },
        |i: int| descended(root, names, (i + 1) as nat),
    )
}

/// One of the names leads up.
pub open spec fn climbs(names: Seq<Seq<char>>) -> bool {
    exists|i: int| 0 <= i < names.len() && #[trigger] names[i] == ".."@
}

/// The directories that lead from `root` to the file `path`, which stands below `root`.
pub open spec fn parents(root: Seq<char>, path: Seq<char>) -> Result<Seq<Seq<char>>, ErrorView> {
    match beneath(root, path) {
        None => Err(ErrorView::MailOutside),
        Some(names) => if climbs(names) {
            Err(ErrorView::MailPath)
        } else if names.len() == 0 {
            Err(ErrorView::MailParent)
        } else {
            Ok(between(root, names))
        },
    }
}

/// A list of names or a refusal, by their views.
pub open spec fn listed(res: Result<Vec<String>, Error>) -> Result<Seq<Seq<char>>, ErrorView> {
    match res {
        Ok(names) => Ok(views(names@)),
        Err(error) => Err(error@),
    }
}

fn is_climbing(names: &Vec<String>) -> (res: bool)
    ensures
        res == climbs(views(names@)),
{
    let mut i: usize = 0;
    while i < names.len()
        invariant
            i <= names.len(),
            forall|j: int| 0 <= j < i ==> #[trigger] views(names@)[j] != ".."@,
        decreases names.len() - i,
    {
        assert(views(names@)[i as int] == names@[i as int]@);
        if same(names[i].as_str(), "..") {
            return true;
        }
        i = i + 1;
    }
    false
}

/// The directories that lead from `root` to the file `path`, which must stand below `root`.
pub fn safe_parents(root: &str, path: &str) -> (res: Result<Vec<String>, Error>)
    ensures
        listed(res) == parents(root@, path@),
{
    let names = match relative(root, path) {
        None => {
            return Err(Error::MailOutside);
        },
        Some(names) => names,
    };
    let ghost all = views(names@);
    if is_climbing(&names) {
        return Err(Error::MailPath);
    }
    if names.len() == 0 {
        return Err(Error::MailParent);
    }
    let mut out: Vec<String> = Vec::new();
    let mut current = root.to_owned();
    let mut i: usize = 0;
    while i + 1 < names.len()
        invariant
            names.len() > 0,
            i < names.len(),
            all == views(names@),
            out.len() == i,
            current@ == descended(root@, all, i as nat),
            forall|j: int|
                0 <= j < i ==> (#[trigger] out@[j])@ == descended(root@, all, (j + 1) as nat),
        decreases names.len() - i,
    {
        assert(all[i as int] == names@[i as int]@);
        current = join(current.as_str(), names[i].as_str());
        out.push(current.clone());
        i = i + 1;
    }
    assert(views(out@) =~= between(root@, all));
    Ok(out)
}

/// What stands below a directory and leads nowhere up from it stays below it: each directory on
/// the way is named by the root and names that are not `..`.
pub proof fn law_parents_stay_below(root: Seq<char>, path: Seq<char>)
    requires
        parents(root, path) is Ok,
    ensures
        beneath(root, path) is Some,
        forall|i: int|
            0 <= i < beneath(root, path)->0.len() ==> #[trigger] beneath(root, path)->0[i] != ".."@,
        segments(path) == segments(root) + beneath(root, path)->0,
{
    let names = beneath(root, path)->0;
    assert(!climbs(names));
    assert(segments(path) =~= segments(root) + names);
}

/// The names of two paths that a separator joins are those of the first and then those of the
/// second.
pub proof fn law_segments(first: Seq<char>, second: Seq<char>)
    ensures
        segments(first + "/"@ + second) == segments(first) + segments(second),
    decreases first.len(),
{
    reveal_strlit("/");
    let whole = first + "/"@ + second;
    let k = piece_len(first) as int;
    lemma_piece_len(first);
    assert forall|i: int| 0 <= i < k implies whole[i] != '/' by {
        assert(whole[i] == first[i]);
    }
    if k < first.len() {
        assert(whole[k] == first[k]);
        lemma_piece_len_at(whole, k);
        assert(whole.take(k) =~= first.take(k));
        assert(whole.skip(k + 1) =~= first.skip(k + 1) + "/"@ + second);
        law_segments(first.skip(k + 1), second);
    } else {
        assert(whole[k] == '/');
        lemma_piece_len_at(whole, k);
        assert(whole.take(k) =~= first.take(k));
        assert(whole.skip(k + 1) =~= second);
    }
    assert(segments(whole) =~= segments(first) + segments(second));
}

/// A name without separators stands for itself.
pub proof fn law_one_name(name: Seq<char>)
    requires
        name.len() > 0,
        name != "."@,
        forall|i: int| 0 <= i < name.len() ==> #[trigger] name[i] != '/',
    ensures
        segments(name) == seq![name],
{
    lemma_piece_len_at(name, name.len() as int);
    assert(name.take(name.len() as int) =~= name);
    assert(segments(name) =~= seq![name]);
}

/// An entry of a directory stands one name below it.
pub proof fn law_entry_is_below(dir: Seq<char>, name: Seq<char>)
    requires
        begins(dir, "/"@),
        name.len() > 0,
        name != "."@,
        forall|i: int| 0 <= i < name.len() ==> #[trigger] name[i] != '/',
    ensures
        beneath(dir, entry_of(dir, name)) == Some(seq![name]),
{
    reveal_strlit("/");
    let path = entry_of(dir, name);
    lemma_entry_segments(dir, name);
    assert(path.subrange(0, 1) =~= dir.subrange(0, 1));
    lemma_parted(segments(dir), seq![name]);
}

#[verifier::spinoff_prover]
proof fn lemma_entry_segments(dir: Seq<char>, name: Seq<char>)
    requires
        dir.len() > 0,
        name.len() > 0,
        name != "."@,
        forall|i: int| 0 <= i < name.len() ==> #[trigger] name[i] != '/',
    ensures
        segments(entry_of(dir, name)) == segments(dir) + seq![name],
{
    reveal_strlit("/");
    law_one_name(name);
    if dir.last() == '/' {
        let head = dir.drop_last();
        let none = Seq::<char>::empty();
        assert(dir =~= head + "/"@ + none);
        assert(entry_of(dir, name) =~= head + "/"@ + name);
        law_segments(head, none);
        law_segments(head, name);
        lemma_piece_len_at(none, 0);
        assert(segments(none) =~= Seq::<Seq<char>>::empty());
        assert(segments(dir) =~= segments(head));
    } else {
        law_segments(dir, name);
    }
}

proof fn lemma_parted(first: Seq<Seq<char>>, second: Seq<Seq<char>>)
    ensures
        (first + second).take(first.len() as int) == first,
        (first + second).skip(first.len() as int) == second,
{
    assert((first + second).take(first.len() as int) =~= first);
    assert((first + second).skip(first.len() as int) =~= second);
}

/// The directories that lead to a file are all those between: the first stands in `root`, each
/// other in the one before it, and the file in the last.
pub proof fn law_parents_are_all(root: Seq<char>, path: Seq<char>)
    requires
        parents(root, path) is Ok,
    ensures
        ({
            let dirs = parents(root, path)->Ok_0;
            let names = beneath(root, path)->0;
            &&& names.len() == dirs.len() + 1
            &&& dirs.len() > 0 ==> dirs[0] == entry_of(root, names[0])
            &&& forall|i: int, j: int|
                0 <= i < dirs.len() && i + 1 == j < dirs.len() ==> #[trigger] dirs[j] == entry_of(
                    #[trigger] dirs[i],
                    names[j],
                )
        }),
{
    let names = beneath(root, path)->0;
    reveal_with_fuel(descended, 2);
}

/// A file has directories that lead to it if it stands below `root` under a name, and no name on
/// the way leads up; else the first of these that is wrong is told.
pub proof fn law_outside(root: Seq<char>, path: Seq<char>)
    ensures
        !begins(root, "/"@) || !begins(path, "/"@) ==> parents(root, path) == Err::<
            Seq<Seq<char>>,
            ErrorView,
        >(ErrorView::MailOutside),
        !segments(root).is_prefix_of(segments(path)) ==> parents(root, path) == Err::<
            Seq<Seq<char>>,
            ErrorView,
        >(ErrorView::MailOutside),
        begins(root, "/"@) && begins(path, "/"@) && segments(root).is_prefix_of(segments(path))
            && segments(path).skip(segments(root).len() as int).contains(".."@) ==> parents(
            root,
            path,
        ) == Err::<Seq<Seq<char>>, ErrorView>(ErrorView::MailPath),
        begins(root, "/"@) && begins(path, "/"@) && segments(path) == segments(root) ==> parents(
            root,
            path,
        ) == Err::<Seq<Seq<char>>, ErrorView>(ErrorView::MailParent),
        begins(root, "/"@) && begins(path, "/"@) && segments(root).is_prefix_of(segments(path))
            && segments(root).len() < segments(path).len() && !segments(path).skip(
            segments(root).len() as int,
        ).contains(".."@) ==> parents(root, path) is Ok,
{
    let base = segments(root);
    let all = segments(path);
    if base.len() <= all.len() {
        let names = all.skip(base.len() as int);
        if all.take(base.len() as int) == base {
            assert(base.is_prefix_of(all));
        }
        if base.is_prefix_of(all) {
            assert(all.take(base.len() as int) =~= base);
        }
        if names.contains(".."@) {
            let i = choose|i: int| 0 <= i < names.len() && names[i] == ".."@;
            assert(climbs(names));
        }
        if climbs(names) {
            let i = choose|i: int| 0 <= i < names.len() && #[trigger] names[i] == ".."@;
            assert(names.contains(names[i]));
        }
    }
}

/// Nothing and a single dot name nothing.
pub proof fn law_no_name()
    ensures
        segments(Seq::<char>::empty()).len() == 0,
        segments("."@).len() == 0,
        segments("/"@).len() == 0,
{
    reveal_strlit(".");
    reveal_strlit("/");
    let none = Seq::<char>::empty();
    lemma_piece_len_at(none, 0);
    assert(segments(none).len() == 0);
    lemma_piece_len_at("."@, 1);
    assert("."@.take(1) =~= "."@);
    assert(segments("."@).len() == 0);
    law_segments(none, none);
    assert(none + "/"@ + none =~= "/"@);
}

} // verus!
