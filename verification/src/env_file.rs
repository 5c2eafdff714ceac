//! The `.env` file beside the configuration: API keys the user entered are stored there,
//! one `NAME=value` line each.

use vstd::prelude::*;

use crate::text::{
    chars_of, has_prefix, is_space, join_lines, lines, next_line, push_char, push_range,
    push_str, range_has_prefix, trim_start, trim_start_bound,
};

verus! {

/// The lines of `ls` that do not assign the variable (`prefix` is `NAME=`).
pub open spec fn other_assignments(ls: Seq<Seq<char>>, prefix: Seq<char>) -> Seq<Seq<char>>
    decreases ls.len(),
{
    if ls.len() == 0 {
        ls
    } else if has_prefix(trim_start(ls.last()), prefix) {
        other_assignments(ls.drop_last(), prefix)
    } else {
        other_assignments(ls.drop_last(), prefix).push(ls.last())
    }
}

/// The pieces of the new file: the other lines in order, then the new assignment.
pub open spec fn env_pieces(existing: Seq<char>, name: Seq<char>, value: Seq<char>) -> Seq<Seq<char>> {
    let prefix = name + seq!['='];
    other_assignments(lines(existing), prefix).push(prefix + value)
}

/// Each piece followed by a newline.
pub open spec fn terminated(ls: Seq<Seq<char>>) -> Seq<char>
    decreases ls.len(),
{
    if ls.len() == 0 {
        Seq::empty()
    } else {
        terminated(ls.drop_last()) + ls.last() + seq!['\n']
    }
}

proof fn lemma_terminated_is_joined(ls: Seq<Seq<char>>)
    requires
        ls.len() > 0,
    ensures
        terminated(ls) == join_lines(ls) + seq!['\n'],
    decreases ls.len(),
{
    if ls.len() > 1 {
        lemma_terminated_is_joined(ls.drop_last());
        assert(terminated(ls) =~= join_lines(ls.drop_last()) + seq!['\n'] + ls.last() + seq![
            '\n',
        ]);
    } else {
        assert(ls.drop_last() =~= Seq::<Seq<char>>::empty());
        assert(terminated(ls.drop_last()) == Seq::<char>::empty());
        assert(terminated(ls) =~= ls[0] + seq!['\n']);
    }
}

/// The new content of the `.env` file when `name` is set to `value`: every line that
/// already assigns `name` (after leading white space) is dropped, the others are kept in
/// order, `name=value` is appended, lines are joined by `'\n'` and end with one.
pub fn env_file_content(existing: &str, name: &str, value: &str) -> (content: String)
    ensures
        content@ == join_lines(env_pieces(existing@, name@, value@)) + seq!['\n'],
{
    let cs = chars_of(existing);
    let mut prefix = String::from_str(name);
    push_char(&mut prefix, '=');
    let pc = chars_of(prefix.as_str());
    let n = cs.len();
    let mut out = String::new();
    let mut pos: usize = 0;
    let ghost mut kept: Seq<Seq<char>> = Seq::empty();
    assert(cs@.skip(0) =~= cs@);
    while pos < n
        invariant
            pos <= n == cs.len(),
            cs@ == existing@,
            pc@ == name@ + seq!['='],
            out@ == terminated(kept),
            other_assignments(lines(existing@), pc@) == kept + other_assignments(
                lines(cs@.skip(pos as int)),
                pc@,
            ),
        decreases n - pos,
    {
        let (end, next) = next_line(&cs, pos);
        let ghost line = cs@.subrange(pos as int, end as int);
        let a = trim_start_bound(&cs, pos, end);
        let assigns = range_has_prefix(&cs, a, end, &pc);
        proof {
            let rest = lines(cs@.skip(pos as int));
            let later = lines(cs@.skip(next as int));
            assert(rest =~= seq![line] + later);
            lemma_other_assignments_front(line, later, pc@);
        }
        if !assigns {
            push_range(&mut out, &cs, pos, end);
            push_char(&mut out, '\n');
            proof {
                assert(kept.push(line).drop_last() =~= kept);
                assert(terminated(kept.push(line)) =~= terminated(kept) + line + seq!['\n']);
                assert(kept + (seq![line] + other_assignments(lines(cs@.skip(next as int)), pc@))
                    =~= kept.push(line) + other_assignments(lines(cs@.skip(next as int)), pc@));
                kept = kept.push(line);
            }
        }
        pos = next;
    }
    push_str(&mut out, prefix.as_str());
    push_str(&mut out, value);
    push_char(&mut out, '\n');
    proof {
        assert(cs@.skip(n as int) =~= Seq::<char>::empty());
        assert(lines(Seq::<char>::empty()) == Seq::<Seq<char>>::empty());
        assert(kept + Seq::<Seq<char>>::empty() =~= kept);
        let pieces = kept.push(pc@ + value@);
        assert(pieces.drop_last() =~= kept);
        lemma_terminated_is_joined(pieces);
        assert(out@ =~= terminated(pieces));
    }
    out
}

proof fn lemma_other_assignments_front(first: Seq<char>, rest: Seq<Seq<char>>, prefix: Seq<char>)
    ensures
        other_assignments(seq![first] + rest, prefix) == if has_prefix(trim_start(first), prefix) {
            other_assignments(rest, prefix)
        } else {
            seq![first] + other_assignments(rest, prefix)
        },
    decreases rest.len(),
{
    if rest.len() == 0 {
        let all = seq![first] + rest;
        assert(all.drop_last() =~= Seq::<Seq<char>>::empty());
        assert(all.last() == first);
        let e = Seq::<Seq<char>>::empty();
        assert(other_assignments(e, prefix) == e);
        assert(other_assignments(rest, prefix) == e);
        assert(e.push(first) =~= seq![first] + e);
    } else {
        let all = seq![first] + rest;
        lemma_other_assignments_front(first, rest.drop_last(), prefix);
        assert(all.drop_last() =~= seq![first] + rest.drop_last());
        assert(all.last() == rest.last());
        let inner = other_assignments(all.drop_last(), prefix);
        let tail = other_assignments(rest.drop_last(), prefix);
        assert(other_assignments(all, prefix) == if has_prefix(trim_start(rest.last()), prefix) {
            inner
        } else {
            inner.push(rest.last())
        });
        assert(other_assignments(rest, prefix) == if has_prefix(trim_start(rest.last()), prefix) {
            tail
        } else {
            tail.push(rest.last())
        });
        if !has_prefix(trim_start(first), prefix) {
            assert((seq![first] + tail).push(rest.last()) =~= seq![first] + tail.push(
                rest.last(),
            ));
        }
    }
}

/// No line kept from the old file assigns the variable.
pub proof fn lemma_other_assignments_clean(ls: Seq<Seq<char>>, prefix: Seq<char>)
    ensures
        forall|i: int|
            0 <= i < other_assignments(ls, prefix).len() ==> !has_prefix(
                trim_start(#[trigger] other_assignments(ls, prefix)[i]),
                prefix,
            ),
    decreases ls.len(),
{
    if ls.len() > 0 {
        lemma_other_assignments_clean(ls.drop_last(), prefix);
        let inner = other_assignments(ls.drop_last(), prefix);
        let all = other_assignments(ls, prefix);
        assert forall|i: int| 0 <= i < all.len() implies !has_prefix(
            trim_start(#[trigger] all[i]),
            prefix,
        ) by {
            if i < inner.len() {
                assert(all[i] == inner[i]);
            }
        }
    }
}

/// After a key is written, the file assigns it exactly once, on its last line (for a name
/// that does not begin with white space).
pub proof fn lemma_env_assigns_once(existing: Seq<char>, name: Seq<char>, value: Seq<char>)
    requires
        name.len() > 0,
        !is_space(name[0]),
    ensures
        ({
            let pieces = env_pieces(existing, name, value);
            let prefix = name + seq!['='];
            &&& pieces.last() == prefix + value
            &&& has_prefix(trim_start(pieces.last()), prefix)
            &&& forall|i: int|
                0 <= i < pieces.len() - 1 ==> !has_prefix(trim_start(#[trigger] pieces[i]), prefix)
        }),
{
    let prefix = name + seq!['='];
    let entry = prefix + value;
    lemma_other_assignments_clean(lines(existing), prefix);
    assert(entry[0] == name[0]);
    assert(trim_start(entry) == entry);
    assert(entry.take(prefix.len() as int) =~= prefix);
    let kept = other_assignments(lines(existing), prefix);
    assert forall|i: int| 0 <= i < kept.push(entry).len() - 1 implies !has_prefix(
        trim_start(#[trigger] kept.push(entry)[i]),
        prefix,
    ) by {
        assert(kept.push(entry)[i] == kept[i]);
    }
}

} // verus!
