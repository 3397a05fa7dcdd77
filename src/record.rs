//! The text of a stored record, how a record is read back as a command line,
//! and the lines and messages shown about records.
use vstd::prelude::*;
use vstd::string::*;
use crate::text::{
    decimal, decimal_text, join_with_space, join_words, split_on_space, split_spaces, trim_text,
    trimmed, views, lemma_decimal_injective,
};

verus! {

/// A record's content: the command, one space, then the arguments joined by
/// single spaces. The space after the command is there even with no arguments.
pub open spec fn record_text(cmd: Seq<char>, args: Seq<Seq<char>>) -> Seq<char> {
    cmd + seq![' '] + join_words(args)
}

/// The trimmed pieces of a record's content between single spaces: the first
/// is the command, the others its arguments.
pub open spec fn record_pieces(content: Seq<char>) -> Seq<Seq<char>> {
    split_spaces(content).map_values(|p: Seq<char>| trimmed(p))
}

/// The line that shows the record at position `i` (from zero) of a listing.
pub open spec fn list_line(i: nat, name: Seq<char>) -> Seq<char> {
    decimal(i + 1) + seq![')', ' '] + name
}

/// The message for a record that is not in the database directory.
pub open spec fn not_found_text(name: Seq<char>, dir: Seq<char>) -> Seq<char> {
    seq!['C', 'o', 'm', 'm', 'a', 'n', 'd', ' '] + name + seq![
        ' ', 'n', 'o', 't', ' ', 'f', 'o', 'u', 'n', 'd', ' ', 'i', 'n', ' ', 'd', 'a', 't', 'a',
        'b', 'a', 's', 'e', ' '
    ] + dir
}

/// Builds the content stored for a command and its arguments.
pub fn record_content(cmd: &String, args: &Vec<String>) -> (r: String)
    ensures
        r@ == record_text(cmd@, views(args@)),
{
    let mut r = cmd.clone();
    r.append(" ");
    let joined = join_with_space(args);
    r.append(joined.as_str());
    proof {
        reveal_strlit(" ");
    }
    assert(r@ =~= record_text(cmd@, views(args@)));
    r
}

/// Reads a record's content back as a command and its arguments.
pub fn parse_record(content: &String) -> (r: (String, Vec<String>))
    ensures
        record_pieces(content@).len() >= 1,
        r.0@ == record_pieces(content@)[0],
        views(r.1@) == record_pieces(content@).drop_first(),
{
    let pieces = split_on_space(content.as_str());
    let ghost want = record_pieces(content@);
    let mut trimmed_pieces: Vec<String> = Vec::new();
    let mut i: usize = 0;
    while i < pieces.len()
        invariant
            0 <= i <= pieces.len(),
            views(pieces@) == split_spaces(content@),
            want == record_pieces(content@),
            views(trimmed_pieces@) == want.subrange(0, i as int),
        decreases pieces.len() - i,
    {
        let t = String::from_str(trim_text(pieces[i].as_str()));
        let ghost before = trimmed_pieces@;
        trimmed_pieces.push(t);
        assert(views(pieces@)[i as int] == pieces@[i as int]@);
        assert(views(trimmed_pieces@) =~= want.subrange(0, i + 1)) by {
            assert(views(trimmed_pieces@) =~= views(before).push(t@));
        }
        i = i + 1;
    }
    assert(want.subrange(0, pieces.len() as int) =~= want);
    proof {
        crate::text::lemma_split_len_pos(content@);
    }
    let mut rest = trimmed_pieces;
    let cmd = rest.remove(0);
    assert(views(rest@) =~= want.drop_first());
    (cmd, rest)
}

/// The lines of a listing of `names`, one per name, numbered from one.
pub fn list_lines(names: &Vec<String>) -> (r: Vec<String>)
    ensures
        r@.len() == names@.len(),
        forall|i: int| 0 <= i < r@.len() ==> #[trigger] r@[i]@ == list_line(i as nat, names@[i]@),
{
    let mut r: Vec<String> = Vec::new();
    let mut i: usize = 0;
    while i < names.len()
        invariant
            0 <= i <= names.len(),
            r@.len() == i,
            forall|k: int| 0 <= k < i ==> #[trigger] r@[k]@ == list_line(k as nat, names@[k]@),
        decreases names.len() - i,
    {
        let mut line = decimal_text(i + 1);
        line.append(") ");
        line.append(names[i].as_str());
        proof {
            reveal_strlit(") ");
        }
        assert(line@ =~= list_line(i as nat, names@[i as int]@));
        r.push(line);
        i = i + 1;
    }
    r
}

/// The message for a record `name` that is not in directory `dir`.
pub fn not_found_message(name: &String, dir: &String) -> (r: String)
    ensures
        r@ == not_found_text(name@, dir@),
{
    let mut r = String::from_str("Command ");
    r.append(name.as_str());
    r.append(" not found in database ");
    r.append(dir.as_str());
    proof {
        reveal_strlit("Command ");
        reveal_strlit(" not found in database ");
    }
    assert(r@ =~= not_found_text(name@, dir@));
    r
}

/// The exit status that follows a finished command: its own code, or zero
/// when it reported none.
pub fn exit_code(code: Option<i32>) -> (r: i32)
    ensures
        r == match code {
            Some(c) => c,
            None => 0,
        },
{
    match code {
        Some(c) => c,
        None => 0,
    }
}

/// `w` holds no space.
pub open spec fn spaceless(w: Seq<char>) -> bool {
    forall|k: int| 0 <= k < w.len() ==> #[trigger] w[k] != ' '
}

proof fn lemma_split_word(w: Seq<char>)
    requires
        spaceless(w),
    ensures
        split_spaces(w) == seq![w],
    decreases w.len(),
{
    if w.len() > 0 {
        lemma_split_word(w.drop_last());
        assert(w.last() == w[w.len() - 1]);
        assert(w.drop_last().push(w.last()) =~= w);
        assert(seq![w.drop_last()].update(0, w) =~= seq![w]);
    } else {
        assert(w =~= Seq::<char>::empty());
    }
}

proof fn lemma_split_after_space(s: Seq<char>, w: Seq<char>)
    requires
        spaceless(w),
    ensures
        split_spaces(s + seq![' '] + w) == split_spaces(s).push(w),
    decreases w.len(),
{
    let t = s + seq![' '] + w;
    if w.len() == 0 {
        assert(w =~= Seq::<char>::empty());
        assert(t.drop_last() =~= s);
        assert(t.last() == ' ');
    } else {
        let v = w.drop_last();
        lemma_split_after_space(s, v);
        assert(t.drop_last() =~= s + seq![' '] + v);
        assert(t.last() == w[w.len() - 1]);
        assert(v.push(t.last()) =~= w);
        let rest = split_spaces(s).push(v);
        assert(rest.update(rest.len() - 1, v.push(t.last())) =~= split_spaces(s).push(w));
    }
}

proof fn lemma_split_join(ws: Seq<Seq<char>>)
    requires
        ws.len() >= 1,
        forall|k: int| 0 <= k < ws.len() ==> spaceless(#[trigger] ws[k]),
    ensures
        split_spaces(join_words(ws)) == ws,
    decreases ws.len(),
{
    if ws.len() == 1 {
        lemma_split_word(ws[0]);
        assert(seq![ws[0]] =~= ws);
    } else {
        let init = ws.drop_last();
        assert forall|k: int| 0 <= k < init.len() implies spaceless(#[trigger] init[k]) by {
            assert(init[k] == ws[k]);
        }
        lemma_split_join(init);
        assert(spaceless(ws[ws.len() - 1]));
        lemma_split_after_space(join_words(init), ws.last());
        assert(init.push(ws.last()) =~= ws);
    }
}

proof fn lemma_join_front(c: Seq<char>, xs: Seq<Seq<char>>)
    requires
        xs.len() >= 1,
    ensures
        join_words(seq![c] + xs) == c + seq![' '] + join_words(xs),
    decreases xs.len(),
{
    let ws = seq![c] + xs;
    if xs.len() == 1 {
        assert(ws.drop_last() =~= seq![c]);
        assert(ws.last() == xs[0]);
        assert(join_words(seq![c]) == c);
        assert(join_words(xs) == xs[0]);
    } else {
        let init = xs.drop_last();
        lemma_join_front(c, init);
        assert(ws.drop_last() =~= seq![c] + init);
        assert(ws.last() == xs.last());
        assert(xs.drop_last() == init);
        assert(join_words(xs) == join_words(init) + seq![' '] + xs.last());
        assert(join_words(ws) == join_words(seq![c] + init) + seq![' '] + xs.last());
        assert(c + seq![' '] + join_words(init) + seq![' '] + xs.last() =~= c + seq![' '] + (
        join_words(init) + seq![' '] + xs.last()));
    }
}

/// Reading back a saved record gives the command and arguments that were
/// saved, when each of them is free of spaces and unchanged by trimming, and
/// there is at least one argument. (With none, the stored trailing space
/// gives one empty argument.)
pub proof fn lemma_record_round_trip(cmd: Seq<char>, args: Seq<Seq<char>>)
    requires
        args.len() >= 1,
        spaceless(cmd),
        trimmed(cmd) == cmd,
        forall|k: int| 0 <= k < args.len() ==> spaceless(#[trigger] args[k]),
        forall|k: int| 0 <= k < args.len() ==> trimmed(#[trigger] args[k]) == args[k],
    ensures
        record_pieces(record_text(cmd, args))[0] == cmd,
        record_pieces(record_text(cmd, args)).drop_first() == args,
{
    let ws = seq![cmd] + args;
    lemma_join_front(cmd, args);
    assert forall|k: int| 0 <= k < ws.len() implies spaceless(#[trigger] ws[k]) by {
        if k > 0 {
            assert(ws[k] == args[k - 1]);
        }
    }
    lemma_split_join(ws);
    let pieces = record_pieces(record_text(cmd, args));
    assert(pieces =~= ws) by {
        assert forall|k: int| 0 <= k < ws.len() implies #[trigger] pieces[k] == ws[k] by {
            if k > 0 {
                assert(ws[k] == args[k - 1]);
            }
        }
    }
    assert(ws.drop_first() =~= args);
}

/// A listing numbers its lines from one, and no two lines carry the same
/// number: line `i` is the number `i + 1`, then `) `, then the name.
pub proof fn lemma_listing_numbered(i: nat, j: nat, a: Seq<char>, b: Seq<char>)
    requires
        i != j,
    ensures
        list_line(i, a) == decimal(i + 1) + seq![')', ' '] + a,
        decimal(i + 1) != decimal(j + 1),
{
    lemma_decimal_injective(i + 1, j + 1);
}

} // verus!
