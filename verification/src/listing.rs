//! Which entries of a folder the folder dialog offers.

use vstd::prelude::*;
use vstd::string::*;

verus! {

/// The extension that marks a file as an icon.
pub open spec fn icon_extension() -> Seq<char> {
    seq!['p', 'n', 'g']
}

/// A name that starts with a dot is hidden.
pub open spec fn is_hidden(name: Seq<char>) -> bool {
    name.len() > 0 && name[0] == '.'
}

/// The place of the first dot in a name, or the name's length if it has none.
pub open spec fn first_dot(name: Seq<char>) -> int
    decreases name.len(),
{
    if name.len() == 0 || name[0] == '.' {
        0
    } else {
        1 + first_dot(name.drop_first())
    }
}

/// A file is an icon if what follows the first dot of its name is exactly
/// the icon extension. So `a.png` is one, and `a.b.png`, `a.PNG` and `png`
/// are not.
pub open spec fn is_icon_file(name: Seq<char>) -> bool {
    let dot = first_dot(name);
    dot < name.len() && name.subrange(dot + 1, name.len() as int) == icon_extension()
}

/// An entry is offered unless it is hidden; a folder always, a file only if
/// it is an icon.
pub open spec fn is_offered(name: Seq<char>, is_folder: bool) -> bool {
    !is_hidden(name) && (is_folder || is_icon_file(name))
}

/// The names of the offered entries, last entry first.
pub open spec fn offered_reversed(entries: Seq<(String, bool)>) -> Seq<Seq<char>>
    decreases entries.len(),
{
    if entries.len() == 0 {
        Seq::empty()
    } else {
        let first = entries[0];
        let rest = offered_reversed(entries.drop_first());
        if is_offered(first.0@, first.1) {
            rest.push(first.0@)
        } else {
            rest
        }
    }
}

/// What the dialog lists for a folder with the given entries: the way up,
/// then the offered entries in reverse order.
pub open spec fn listing(entries: Seq<(String, bool)>) -> Seq<Seq<char>> {
    seq![".."@] + offered_reversed(entries)
}

/// The names of a list of strings.
pub open spec fn texts(names: Seq<String>) -> Seq<Seq<char>> {
    names.map_values(|n: String| n@)
}

/// The first dot lies within the name or right behind it, and no dot comes
/// before it.
pub proof fn lemma_first_dot(name: Seq<char>)
    ensures
        0 <= first_dot(name) <= name.len(),
        forall|i: int| 0 <= i < first_dot(name) ==> name[i] != '.',
        first_dot(name) < name.len() ==> name[first_dot(name)] == '.',
    decreases name.len(),
{
    if name.len() == 0 || name[0] == '.' {
    } else {
        let rest = name.drop_first();
        lemma_first_dot(rest);
        assert forall|i: int| 0 <= i < first_dot(name) implies name[i] != '.' by {
            if i > 0 {
                assert(name[i] == rest[i - 1]);
            }
        }
        if first_dot(name) < name.len() {
            assert(name[first_dot(name)] == rest[first_dot(rest)]);
        }
    }
}

/// A place is the first dot if it holds a dot and no place before it does;
/// the name's length is, if the name holds no dot.
pub proof fn lemma_first_dot_found(name: Seq<char>, at: int)
    requires
        0 <= at <= name.len(),
        forall|i: int| 0 <= i < at ==> name[i] != '.',
        at < name.len() ==> name[at] == '.',
    ensures
        first_dot(name) == at,
{
    lemma_first_dot(name);
    let found = first_dot(name);
    if found < at {
        assert(name[found] == '.');
    } else if at < found {
        assert(name[at] == '.');
    }
}

/// Whether a name starts with a dot.
pub fn name_is_hidden(name: &str) -> (r: bool)
    ensures
        r == is_hidden(name@),
{
    name.unicode_len() > 0 && name.get_char(0) == '.'
}

/// Whether a file name marks an icon.
pub fn name_is_icon_file(name: &str) -> (r: bool)
    ensures
        r == is_icon_file(name@),
{
    let len: usize = name.unicode_len();
    let mut dot: usize = 0;
    while dot < len && name.get_char(dot) != '.'
        invariant
            len == name@.len(),
            dot <= len,
            forall|i: int| 0 <= i < dot ==> name@[i] != '.',
        decreases len - dot,
    {
        dot += 1;
    }
    proof {
        lemma_first_dot_found(name@, dot as int);
    }
    if dot >= len {
        return false;
    }
    let ghost tail = name@.subrange(dot + 1, len as int);
    if len - dot != 4 {
        assert(tail.len() != icon_extension().len());
        return false;
    }
    let found = name.get_char(dot + 1) == 'p' && name.get_char(dot + 2) == 'n' && name.get_char(
        dot + 3,
    ) == 'g';
    proof {
        assert(tail.len() == 3);
        assert(tail[0] == name@[dot + 1]);
        assert(tail[1] == name@[dot + 2]);
        assert(tail[2] == name@[dot + 3]);
        if found {
            assert(tail =~= icon_extension());
        }
    }
    found
}

/// What the dialog lists for a folder. Each entry is a name and whether it
/// is a folder, in the order in which the folder was read.
pub fn list_entries(entries: &Vec<(String, bool)>) -> (names: Vec<String>)
    ensures
        texts(names@) == listing(entries@),
{
    let mut names: Vec<String> = Vec::new();
    names.push("..".to_owned());
    let mut i: usize = entries.len();
    assert(entries@.subrange(i as int, entries@.len() as int) =~= Seq::empty());
    assert(texts(names@) =~= seq![".."@]);
    while i > 0
        invariant
            i <= entries@.len(),
            texts(names@) == seq![".."@] + offered_reversed(
                entries@.subrange(i as int, entries@.len() as int),
            ),
        decreases i,
    {
        i -= 1;
        let ghost before = entries@.subrange(i + 1, entries@.len() as int);
        let ghost now = entries@.subrange(i as int, entries@.len() as int);
        assert(now.drop_first() =~= before);
        assert(now[0] == entries@[i as int]);
        let entry = &entries[i];
        let offered = !name_is_hidden(entry.0.as_str()) && (entry.1 || name_is_icon_file(
            entry.0.as_str(),
        ));
        if offered {
            let ghost old_names = names@;
            names.push(entry.0.clone());
            assert(texts(names@) =~= texts(old_names).push(entry.0@));
        }
    }
    assert(entries@.subrange(0, entries@.len() as int) =~= entries@);
    names
}

} // verus!
