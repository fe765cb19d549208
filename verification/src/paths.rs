//! What the text of a path says on every platform.

use vstd::prelude::*;

verus! {

/// A character that separates the parts of a path on some platform.
pub open spec fn is_separator(c: char) -> bool {
    c == '/' || c == '\\'
}

/// A part of a path that is one dot begins here.
pub open spec fn dot_part(path: Seq<char>, i: int) -> bool {
    &&& path[i] == '.'
    &&& i == 0 || path[i - 1] == '/'
    &&& i + 1 == path.len() || path[i + 1] == '/'
}

/// A path that falls into the same parts on every platform: names with one slash between two of them,
/// with or without a slash in front, or the root alone. No name is a single dot, and no name holds a
/// backslash or a colon.
pub open spec fn plain_path(path: Seq<char>) -> bool {
    &&& path.len() > 0
    &&& path.len() > 1 ==> path.last() != '/'
    &&& forall|i: int|
        #![trigger path[i]]
        0 <= i < path.len() ==> path[i] != '\\' && path[i] != ':' && !dot_part(path, i)
    &&& forall|i: int| 0 < i < path.len() && #[trigger] path[i] == '/' ==> path[i - 1] != '/'
}

/// A path is another one or lies below it, part by part.
pub open spec fn lies_under(path: Seq<char>, base: Seq<char>) -> bool {
    path == base || (base.len() < path.len() && path.take(base.len() as int) == base && (base
        == seq!['/'] || path[base.len() as int] == '/'))
}

/// A path lies below another one on every platform, whatever its names are: the other one begins at
/// the root, ends with a name, and is followed by a slash.
pub open spec fn nested(path: Seq<char>, base: Seq<char>) -> bool {
    &&& 2 <= base.len() < path.len()
    &&& base[0] == '/' && !is_separator(base[1]) && !is_separator(base.last())
    &&& path.take(base.len() as int) == base
    &&& path[base.len() as int] == '/'
}

/// How many slashes a text holds.
pub open spec fn slashes(text: Seq<char>) -> nat
    decreases text.len(),
{
    if text.len() == 0 {
        0
    } else {
        slashes(text.drop_last()) + if text.last() == '/' {
            1nat
        } else {
            0nat
        }
    }
}

/// How many parts a plain path has, the root being one of them.
pub open spec fn path_depth(path: Seq<char>) -> nat {
    if path == seq!['/'] {
        1
    } else {
        1 + slashes(path)
    }
}

/// What lies below a path lies below every path that this one lies below.
pub proof fn below_is_transitive(a: Seq<char>, b: Seq<char>, c: Seq<char>)
    requires
        plain_path(a),
        plain_path(b),
        plain_path(c),
        lies_under(a, b),
        lies_under(b, c),
    ensures
        lies_under(a, c),
{
    if a != b && b != c {
        assert(a.take(c.len() as int) =~= b.take(c.len() as int));
        assert(a[c.len() as int] == a.take(b.len() as int)[c.len() as int]);
    }
}

/// A path lies one level deeper for each name that it has behind another.
pub proof fn names_deepen_a_path(base: Seq<char>, name: Seq<char>)
    requires
        base != seq!['/'],
        base.len() > 0,
        name.len() > 0,
        forall|i: int| 0 <= i < name.len() ==> #[trigger] name[i] != '/',
    ensures
        path_depth(base + seq!['/'] + name) == path_depth(base) + 1,
        path_depth(seq!['/'] + name) == path_depth(seq!['/']) + 1,
{
    lemma_slashes(base.push('/'), name);
    assert(base.push('/').drop_last() =~= base);
    assert(base + seq!['/'] + name =~= base.push('/') + name);
    let whole = base + seq!['/'] + name;
    assert(whole.len() > 1);
    assert(seq!['/'].len() == 1);
    let e = Seq::<char>::empty();
    assert(e.push('/') =~= seq!['/']);
    lemma_slashes(e.push('/'), name);
    assert(e.push('/').drop_last() =~= e);
    assert(slashes(e) == 0);
    assert(slashes(e.push('/')) == 1);
    assert(seq!['/'] + name =~= e.push('/') + name);
    assert((seq!['/'] + name).len() > 1);
}

proof fn lemma_slashes(front: Seq<char>, name: Seq<char>)
    requires
        forall|i: int| 0 <= i < name.len() ==> #[trigger] name[i] != '/',
    ensures
        slashes(front + name) == slashes(front),
    decreases name.len(),
{
    if name.len() == 0 {
        assert(front + name =~= front);
    } else {
        let init = name.drop_last();
        assert forall|i: int| 0 <= i < init.len() implies #[trigger] init[i] != '/' by {
            assert(init[i] == name[i]);
        }
        lemma_slashes(front, init);
        assert((front + name).drop_last() =~= front + init);
        assert((front + name).last() == name[name.len() - 1]);
    }
}

/// A path lies under another where it is that path or goes on with a separator; a longer name that
/// only begins alike does not lie under it.
pub proof fn longer_names_do_not_lie_under(base: Seq<char>, rest: Seq<char>)
    requires
        base.len() > 0,
        base != seq!['/'],
        rest.len() > 0,
    ensures
        lies_under(base, base),
        lies_under(base + rest, base) <==> rest[0] == '/',
        !lies_under(base, base + rest),
{
    assert((base + rest).take(base.len() as int) =~= base);
    assert((base + rest)[base.len() as int] == rest[0]);
}

} // verus!
