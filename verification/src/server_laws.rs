//! What is read of the server and written to it, said of the inputs themselves.

use crate::clock::{has_date, has_short_year};
use crate::console::{console_line, kept, session_name, Console, ConsoleRole, StepView};
use crate::geometry::{margin, share};
use crate::players::{file_entries, is_listed, is_operator, ListFile, OpView, PlayerView};
use crate::processes::{is_server, is_server_jar, running_pid, ProcessInfo};
use crate::properties::{
    entries, lemma_place_of_unique, line_setting, parsed, rendered, value_of, with_value, Settings,
};
use crate::text::{is_space, lemma_find_char_unique, lines, trim_front};
use crate::text_laws::{
    has_firm_ends, is_blank, law_first_line, law_part_between, law_parts_occur,
    law_trimming_takes_off_the_white_space,
};
use crate::uuid::{hex_char, hex_range, lemma_groups, lemma_hex_range, stamped, uuid_text};
use crate::worlds::{
    is_ordering, ranked, same_rank, text_before, total, total_all, worlds_in, DirTree, FoundDir,
    WorldView,
};
use vstd::prelude::*;
use vstd::utf8::encode_utf8;

verus! {

// ---------- Worlds ----------

proof fn lemma_name_order(a: Seq<char>, b: Seq<char>)
    requires
        !text_before(b, a),
    ensures
        exists|k: int|
            0 <= k <= a.len() && k <= b.len() && #[trigger] a.take(k) == b.take(k) && (k == a.len()
                || (k < b.len() && a[k] < b[k])),
    decreases a.len(),
{
    if a.len() == 0 {
        assert(a.take(0) =~= b.take(0));
    } else {
        if a[0] != b[0] {
            assert(a.take(0) =~= b.take(0));
        } else {
            let c = a.drop_first();
            let d = b.drop_first();
            lemma_name_order(c, d);
            let k = choose|k: int|
                0 <= k <= c.len() && k <= d.len() && #[trigger] c.take(k) == d.take(k) && (k
                    == c.len() || (k < d.len() && c[k] < d[k]));
            assert(a.take(k + 1) =~= b.take(k + 1)) by {
                assert forall|i: int| 0 <= i < k + 1 implies a[i] == b[i] by {
                    if i > 0 {
                        assert(c.take(k)[i - 1] == d.take(k)[i - 1]);
                    }
                }
            }
        }
    }
}

/// Of any two worlds of the list that are both current or both not, the name of
/// the first is not greater than that of the second: it begins it, or has the
/// lesser character at the first place where they differ. Nothing else has a say.
pub proof fn law_worlds_stand_by_name(
    list: Seq<WorldView>,
    found: Seq<FoundDir>,
    current: Seq<char>,
    i: int,
    j: int,
)
    requires
        is_ordering(list, worlds_in(found, current)),
        0 <= i < j < list.len(),
        list[i].is_current == list[j].is_current,
    ensures
        exists|k: int|
            0 <= k <= list[i].name.len() && k <= list[j].name.len() && #[trigger] list[i].name.take(
                k,
            ) == list[j].name.take(k) && (k == list[i].name.len() || (k < list[j].name.len()
                && list[i].name[k] < list[j].name[k])),
{
    lemma_name_order(list[i].name, list[j].name);
}

/// Worlds that are alike in name and in being current stand in the order in
/// which they were found.
pub proof fn law_namesakes_stand_as_found(
    list: Seq<WorldView>,
    found: Seq<WorldView>,
    current: bool,
    name: Seq<char>,
)
    requires
        is_ordering(list, found),
    ensures
        list.filter(|w: WorldView| w.is_current == current && w.name == name) == found.filter(
            |w: WorldView| w.is_current == current && w.name == name,
        ),
{
    let alike = |w: WorldView| w.is_current == current && w.name == name;
    let x = WorldView {
        name,
        path: name,
        size_bytes: 0,
        last_modified: None,
        is_current: current,
    };
    assert(alike =~= (|w: WorldView| same_rank(w, x)));
    assert(ranked(list, x) == ranked(found, x));
}

/// What is found is a world exactly where it is a directory with a `level.dat`;
/// the world has the directory's name, or `?` where it has none, its path, size
/// and time, and is current exactly where its name is that of the server's level.
pub proof fn law_worlds_are_directories_with_a_level(
    found: Seq<FoundDir>,
    f: FoundDir,
    current: Seq<char>,
)
    ensures
        worlds_in(Seq::empty(), current) == Seq::<WorldView>::empty(),
        !(f.is_dir && f.has_level) ==> worlds_in(found.push(f), current) == worlds_in(
            found,
            current,
        ),
        f.is_dir && f.has_level ==> {
            let name = if f.name is Some {
                f.name->0@
            } else {
                "?"@
            };
            worlds_in(found.push(f), current) == worlds_in(found, current).push(
                WorldView {
                    name,
                    path: f.path@,
                    size_bytes: f.size_bytes,
                    last_modified: f.last_modified,
                    is_current: name == current,
                },
            )
        },
{
    assert(found.push(f).drop_last() =~= found);
}

/// A file has its own size, a directory the sizes of what is in it, together, and
/// anything else has none.
pub proof fn law_sizes_add_up(n: u64, less: Vec<DirTree>, more: Vec<DirTree>, tree: DirTree)
    ensures
        total(DirTree::File(n)) == n,
        total(DirTree::Nothing) == 0,
        less@.len() == 0 ==> total(DirTree::Dir(less)) == 0,
        more@ == less@.push(tree) ==> total(DirTree::Dir(more)) == total(DirTree::Dir(less))
            + total(tree),
{
    if more@ == less@.push(tree) {
        assert(more@.drop_last() =~= less@);
        assert(total_all(more@) == total_all(less@) + total(tree));
    }
}

// ---------- Processes ----------

/// An argument that ends in `.jar` and has the name of a kind of server in it.
pub open spec fn names_a_server(arg: Seq<char>) -> bool {
    &&& exists|z: Seq<char>| arg == #[trigger] (z + ".jar"@)
    &&& {
        ||| exists|x: Seq<char>, y: Seq<char>| arg == #[trigger] (x + "paper"@ + y)
        ||| exists|x: Seq<char>, y: Seq<char>| arg == #[trigger] (x + "purpur"@ + y)
        ||| exists|x: Seq<char>, y: Seq<char>| arg == #[trigger] (x + "spigot"@ + y)
    }
}

proof fn lemma_names_a_server(arg: Seq<char>)
    ensures
        names_a_server(arg) <==> is_server_jar(arg),
{
    law_parts_occur(arg, "paper"@);
    law_parts_occur(arg, "purpur"@);
    law_parts_occur(arg, "spigot"@);
    let end = ".jar"@;
    if end.is_suffix_of(arg) {
        let z = arg.take(arg.len() - end.len());
        assert(arg =~= z + end) by {
            assert(arg.subrange(arg.len() - end.len(), arg.len() as int) == end);
            assert forall|k: int| z.len() <= k < arg.len() implies arg[k] == end[k - z.len()] by {
                assert(arg.subrange(arg.len() - end.len(), arg.len() as int)[k - z.len()]
                    == arg[k]);
            }
        }
    }
    if exists|z: Seq<char>| arg == #[trigger] (z + end) {
        let z = choose|z: Seq<char>| arg == #[trigger] (z + end);
        assert(arg.subrange(arg.len() - end.len(), arg.len() as int) =~= end);
    }
}

/// A process that works in the server's directory and has an argument that names
/// a server.
pub open spec fn runs_the_server(p: ProcessInfo) -> bool {
    p.in_server_dir && exists|j: int|
        0 <= j < p.cmd@.len() && names_a_server((#[trigger] p.cmd@[j])@)
}

proof fn lemma_runs_the_server(p: ProcessInfo)
    ensures
        runs_the_server(p) <==> is_server(p),
{
    assert forall|j: int| 0 <= j < p.cmd@.len() implies names_a_server((#[trigger] p.cmd@[j])@)
        == is_server_jar(p.cmd@[j]@) by {
        lemma_names_a_server(p.cmd@[j]@);
    }
}

/// The server's process is the first that runs the server; there is none where no
/// process does.
pub proof fn law_first_server_process_counts(processes: Seq<ProcessInfo>, n: int)
    requires
        0 <= n <= processes.len(),
        forall|i: int| 0 <= i < n ==> !runs_the_server(#[trigger] processes[i]),
        n < processes.len() ==> runs_the_server(processes[n]),
    ensures
        running_pid(processes) == if n < processes.len() {
            Some(processes[n].pid)
        } else {
            None
        },
    decreases n,
{
    if processes.len() > 0 {
        lemma_runs_the_server(processes[0]);
        if n > 0 {
            assert(!runs_the_server(processes[0]));
            let rest = processes.skip(1);
            assert forall|i: int| 0 <= i < n - 1 implies !runs_the_server(#[trigger] rest[i]) by {
                assert(rest[i] == processes[i + 1]);
            }
            law_first_server_process_counts(rest, n - 1);
        }
    }
}

proof fn lemma_some_server_is_found(processes: Seq<ProcessInfo>, i: int)
    requires
        0 <= i < processes.len(),
        is_server(processes[i]),
    ensures
        running_pid(processes) is Some,
    decreases processes.len(),
{
    if !is_server(processes[0]) {
        assert(processes.skip(1)[i - 1] == processes[i]);
        lemma_some_server_is_found(processes.skip(1), i - 1);
    }
}

/// A process in the server's directory with an argument that ends in `.jar` and
/// has `paper`, `purpur` or `spigot` before that, whatever stands before, between
/// and beside them, means that the server runs.
pub proof fn law_server_jars_are_seen(
    processes: Seq<ProcessInfo>,
    i: int,
    j: int,
    x: Seq<char>,
    y: Seq<char>,
)
    requires
        0 <= i < processes.len(),
        processes[i].in_server_dir,
        0 <= j < processes[i].cmd@.len(),
        ({
            let arg = processes[i].cmd@[j]@;
            arg == x + "paper"@ + y + ".jar"@ || arg == x + "purpur"@ + y + ".jar"@ || arg == x
                + "spigot"@ + y + ".jar"@
        }),
    ensures
        running_pid(processes) is Some,
{
    let arg = processes[i].cmd@[j]@;
    let tail = y + ".jar"@;
    assert(x + "paper"@ + y + ".jar"@ =~= x + "paper"@ + tail);
    assert(x + "purpur"@ + y + ".jar"@ =~= x + "purpur"@ + tail);
    assert(x + "spigot"@ + y + ".jar"@ =~= x + "spigot"@ + tail);
    law_part_between(x, "paper"@, tail);
    law_part_between(x, "purpur"@, tail);
    law_part_between(x, "spigot"@, tail);
    assert(arg.subrange(arg.len() - ".jar"@.len(), arg.len() as int) =~= ".jar"@);
    assert(is_server_jar(arg));
    lemma_some_server_is_found(processes, i);
}

/// Where the server's process is known, some process of that id works in the
/// server's directory and has an argument that names a server.
pub proof fn law_the_pid_is_a_servers(processes: Seq<ProcessInfo>, pid: u32)
    requires
        running_pid(processes) == Some(pid),
    ensures
        exists|i: int|
            0 <= i < processes.len() && runs_the_server(#[trigger] processes[i])
                && processes[i].pid == pid,
    decreases processes.len(),
{
    lemma_runs_the_server(processes[0]);
    if is_server(processes[0]) {
        assert(runs_the_server(processes[0]));
    } else {
        let rest = processes.skip(1);
        law_the_pid_is_a_servers(rest, pid);
        let i = choose|i: int|
            0 <= i < rest.len() && runs_the_server(#[trigger] rest[i]) && rest[i].pid == pid;
        assert(processes[i + 1] == rest[i]);
    }
}

// ---------- Settings ----------

/// No line feed is in `s`.
pub open spec fn on_one_line(s: Seq<char>) -> bool {
    forall|i: int| 0 <= i < s.len() ==> #[trigger] s[i] != '\n'
}

/// A first line that says nothing, and is read as nothing.
proof fn lemma_silent_line(line: Seq<char>, rest: Seq<char>)
    requires
        on_one_line(line),
        line.len() == 0 || line[line.len() - 1] != '\r',
        line_setting(line) is None,
    ensures
        parsed(line + seq!['\n'] + rest) == parsed(rest),
{
    law_first_line(line, rest);
    let ls = lines(line + seq!['\n'] + rest);
    assert(ls.first() == line);
    assert(ls.drop_first() =~= lines(rest));
}

/// A comment says nothing: a line on which the first character that is no white
/// space is `#`.
pub proof fn law_comments_say_nothing(a: Seq<char>, comment: Seq<char>, rest: Seq<char>)
    requires
        is_blank(a),
        on_one_line(a),
        on_one_line(comment),
        comment.len() == 0 || comment[comment.len() - 1] != '\r',
    ensures
        parsed(a + seq!['#'] + comment + seq!['\n'] + rest) == parsed(rest),
{
    let line = a + seq!['#'] + comment;
    assert(line =~= a + (seq!['#'] + comment));
    lemma_front(a, seq!['#'] + comment);
    lemma_silent_line(line, rest);
}

/// A line without `=` says nothing, nor does a blank one.
pub proof fn law_lines_without_equals_say_nothing(line: Seq<char>, rest: Seq<char>)
    requires
        on_one_line(line),
        line.len() == 0 || line[line.len() - 1] != '\r',
        forall|i: int| 0 <= i < line.len() ==> #[trigger] line[i] != '=',
    ensures
        parsed(line + seq!['\n'] + rest) == parsed(rest),
{
    lemma_find_char_unique(line, '=', line.len() as int);
    lemma_silent_line(line, rest);
}

/// White space in front of something else is what trimming the front takes off.
proof fn lemma_front(a: Seq<char>, s: Seq<char>)
    requires
        is_blank(a),
        s.len() > 0 ==> !is_space(s[0]),
    ensures
        trim_front(a + s) == s,
    decreases a.len(),
{
    if a.len() == 0 {
        assert(a + s =~= s);
    } else {
        assert(is_space(a[0]));
        assert((a + s).drop_first() =~= a.drop_first() + s);
        lemma_front(a.drop_first(), s);
    }
}

/// Any other line is a setting: the key is what stands before the first `=`,
/// without the white space around it, the value is all that stands behind it, as
/// it stands. Settings are read in the order of their lines.
pub proof fn law_a_line_is_a_setting(
    a: Seq<char>,
    key: Seq<char>,
    b: Seq<char>,
    value: Seq<char>,
    rest: Seq<char>,
)
    requires
        is_blank(a),
        is_blank(b),
        has_firm_ends(key),
        on_one_line(a),
        on_one_line(b),
        on_one_line(key),
        on_one_line(value),
        forall|i: int| 0 <= i < key.len() ==> #[trigger] key[i] != '=',
        key.len() > 0 ==> key[0] != '#',
        value.len() == 0 || value[value.len() - 1] != '\r',
    ensures
        parsed(a + key + b + seq!['='] + value + seq!['\n'] + rest) == seq![(key, value)] + parsed(
            rest,
        ),
        parsed(Seq::empty()) == Seq::<(Seq<char>, Seq<char>)>::empty(),
{
    let front = a + key + b;
    let line = front + seq!['='] + value;
    let n = front.len() as int;
    assert forall|i: int| 0 <= i < n implies line[i] != '=' && line[i] != '\n' by {
        if i < a.len() {
            assert(line[i] == a[i]);
            assert(is_space(a[i]));
        } else if i < a.len() + key.len() {
            assert(line[i] == key[i - a.len()]);
        } else {
            assert(line[i] == b[i - a.len() - key.len()]);
            assert(is_space(b[i - a.len() - key.len()]));
        }
    }
    assert(line[n] == '=');
    lemma_find_char_unique(line, '=', n);
    assert(line.take(n) =~= front);
    assert(line.skip(n + 1) =~= value);
    law_trimming_takes_off_the_white_space(a, key, b);
    if key.len() > 0 {
        assert(line =~= a + (key + b + seq!['='] + value));
        lemma_front(a, key + b + seq!['='] + value);
    } else {
        let blank = a + b;
        assert forall|i: int| 0 <= i < blank.len() implies is_space(#[trigger] blank[i]) by {
            if i < a.len() {
                assert(blank[i] == a[i]);
            } else {
                assert(blank[i] == b[i - a.len()]);
            }
        }
        assert(line =~= blank + (seq!['='] + value));
        lemma_front(blank, seq!['='] + value);
    }
    assert(line_setting(line) == Some((key, value)));
    assert forall|i: int| 0 <= i < line.len() implies #[trigger] line[i] != '\n' by {
        if i > n {
            assert(line[i] == value[i - n - 1]);
        }
    }
    if value.len() > 0 {
        assert(line[line.len() - 1] == value[value.len() - 1]);
    } else {
        assert(line[line.len() - 1] == '=');
    }
    law_first_line(line, rest);
    let ls = lines(line + seq!['\n'] + rest);
    assert(ls.first() == line);
    assert(ls.drop_first() =~= lines(rest));
}

/// A key has the value of the first setting that it stands in, and none where it
/// stands in none.
pub proof fn law_first_setting_counts(props: Settings, key: Seq<char>, n: int)
    requires
        0 <= n <= props.len(),
        forall|i: int| 0 <= i < n ==> (#[trigger] props[i]).0 != key,
        n < props.len() ==> props[n].0 == key,
    ensures
        value_of(props, key) == if n < props.len() {
            Some(props[n].1)
        } else {
            None
        },
{
    lemma_place_of_unique(props, key, n);
}

/// Setting a key changes the value of the first setting that it stands in, and of
/// no other; one that stands in none comes after all others.
pub proof fn law_setting_changes_one_value(
    props: Settings,
    key: Seq<char>,
    value: Seq<char>,
    n: int,
)
    requires
        0 <= n <= props.len(),
        forall|i: int| 0 <= i < n ==> (#[trigger] props[i]).0 != key,
        n < props.len() ==> props[n].0 == key,
    ensures
        with_value(props, key, value).len() == if n < props.len() {
            props.len()
        } else {
            props.len() + 1
        },
        with_value(props, key, value)[n] == (key, value),
        forall|i: int|
            0 <= i < props.len() && i != n ==> #[trigger] with_value(props, key, value)[i]
                == props[i],
{
    lemma_place_of_unique(props, key, n);
}

/// The file begins with two comment lines, of which the second has the time, and
/// each setting adds a line of the key, `=` and the value.
pub proof fn law_each_setting_is_a_line(
    stamp: Seq<char>,
    props: Settings,
    key: Seq<char>,
    value: Seq<char>,
)
    ensures
        rendered(stamp, Seq::empty()) == "#Minecraft server properties\n#"@ + stamp + "\n"@,
        rendered(stamp, props.push((key, value))) == rendered(stamp, props) + key + "="@ + value
            + "\n"@,
{
    reveal_strlit("#Minecraft server properties\n");
    reveal_strlit("#Minecraft server properties\n#");
    reveal_strlit("#");
    assert(entries(Seq::empty()) =~= Seq::<char>::empty());
    assert(rendered(stamp, Seq::empty()) =~= "#Minecraft server properties\n#"@ + stamp + "\n"@);
    lemma_entries_push(props, key, value);
    assert(rendered(stamp, props.push((key, value))) =~= rendered(stamp, props) + key + "="@ + value
        + "\n"@);
}

proof fn lemma_entries_push(props: Settings, key: Seq<char>, value: Seq<char>)
    ensures
        entries(props.push((key, value))) == entries(props) + key + "="@ + value + "\n"@,
    decreases props.len(),
{
    let all = props.push((key, value));
    if props.len() == 0 {
        assert(all.drop_first() =~= Seq::empty());
        assert(entries(all.drop_first()) =~= Seq::<char>::empty());
        assert(entries(all) =~= entries(props) + key + "="@ + value + "\n"@);
    } else {
        assert(all.drop_first() =~= props.drop_first().push((key, value)));
        lemma_entries_push(props.drop_first(), key, value);
        assert(entries(all) =~= entries(props) + key + "="@ + value + "\n"@);
    }
}

// ---------- Players ----------

/// A file holds the players that it lists, in their order; one that is missing,
/// unreadable or malformed holds none.
pub proof fn law_files_hold_who_they_list<T>(list: Vec<T>, why: String)
    ensures
        file_entries(ListFile::Entries(list)) == list@,
        file_entries(ListFile::<T>::Missing) == Seq::<T>::empty(),
        file_entries(ListFile::<T>::Malformed) == Seq::<T>::empty(),
        file_entries(ListFile::<T>::Unreadable(why)) == Seq::<T>::empty(),
{
}

/// A name is on a list exactly where an entry has that name, letter for letter.
pub proof fn law_names_are_looked_up(
    list: Seq<PlayerView>,
    ops: Seq<OpView>,
    p: PlayerView,
    op: OpView,
    name: Seq<char>,
)
    ensures
        !is_listed(Seq::empty(), name),
        is_listed(list.push(p), name) <==> is_listed(list, name) || p.name == name,
        !is_operator(Seq::empty(), name),
        is_operator(ops.push(op), name) <==> is_operator(ops, name) || op.name == name,
{
    let more = list.push(p);
    assert(more[list.len() as int] == p);
    assert(forall|i: int| 0 <= i < list.len() ==> #[trigger] more[i] == list[i]);
    if is_listed(list, name) {
        let i = choose|i: int| 0 <= i < list.len() && (#[trigger] list[i]).name == name;
        assert(more[i].name == name);
    }
    let many = ops.push(op);
    assert(many[ops.len() as int] == op);
    assert(forall|i: int| 0 <= i < ops.len() ==> #[trigger] many[i] == ops[i]);
    if is_operator(ops, name) {
        let i = choose|i: int| 0 <= i < ops.len() && (#[trigger] ops[i]).name == name;
        assert(many[i].name == name);
    }
}

// ---------- Player ids ----------

/// `c` is the small hexadecimal digit of `v`.
pub open spec fn is_digit_of(c: char, v: int) -> bool {
    c as u32 == if v < 10 {
        48 + v
    } else {
        87 + v
    }
}

/// The place in an id at which byte `i` of the digest is written: two digits for
/// each byte before it, and the dashes among them.
pub open spec fn byte_place(i: int) -> int {
    2 * i + if i < 4 {
        0int
    } else if i < 6 {
        1
    } else if i < 8 {
        2
    } else if i < 10 {
        3
    } else {
        4
    }
}

/// An id spells its digest, byte by byte, each in two digits; only the upper half
/// of byte 6 is written as 3, and of the upper half of byte 8 the two top bits as
/// 1 and 0.
pub proof fn law_an_id_spells_its_digest(digest: Seq<u8>, i: int)
    requires
        digest.len() == 16,
        0 <= i < 16,
    ensures
        is_digit_of(uuid_text(digest)[byte_place(i) + 1], digest[i] as int % 16),
        i != 6 && i != 8 ==> is_digit_of(uuid_text(digest)[byte_place(i)], digest[i] as int / 16),
        i == 6 ==> is_digit_of(uuid_text(digest)[byte_place(i)], 3),
        i == 8 ==> is_digit_of(
            uuid_text(digest)[byte_place(i)],
            8 + (digest[i] as int / 16) % 4,
        ),
{
    let b = stamped(digest);
    let u = uuid_text(digest);
    lemma_groups(digest);
    let v = digest[6];
    let w = digest[8];
    assert(((v & 0x0f) | 0x30) / 16 == 3 && ((v & 0x0f) | 0x30) % 16 == v % 16) by (bit_vector);
    assert(((w & 0x3f) | 0x80) / 16 == 8 + (w / 16) % 4 && ((w & 0x3f) | 0x80) % 16 == w % 16)
        by (bit_vector);
    let (from, to): (int, int) = if i < 4 {
        (0, 4)
    } else if i < 6 {
        (4, 6)
    } else if i < 8 {
        (6, 8)
    } else if i < 10 {
        (8, 10)
    } else {
        (10, 16)
    };
    lemma_hex_pair(b, from, to, i);
    let start = byte_place(from);
    let group = u.subrange(start, start + 2 * (to - from));
    assert(group == hex_range(b, from, to));
    assert(u[byte_place(i)] == group[2 * (i - from)]);
    assert(u[byte_place(i) + 1] == group[2 * (i - from) + 1]);
}

proof fn lemma_hex_pair(bytes: Seq<u8>, from: int, to: int, i: int)
    requires
        0 <= from <= i < to <= bytes.len(),
    ensures
        hex_range(bytes, from, to).len() == 2 * (to - from),
        hex_range(bytes, from, to)[2 * (i - from)] == hex_char(bytes[i] / 16),
        hex_range(bytes, from, to)[2 * (i - from) + 1] == hex_char(bytes[i] % 16),
    decreases to - from,
{
    lemma_hex_range(bytes, from, to);
    lemma_hex_range(bytes, from, to - 1);
    if i < to - 1 {
        lemma_hex_pair(bytes, from, to - 1, i);
    }
}

// ---------- Moments, areas and sessions ----------

/// The moments that a date is given for, and those whose year has four digits.
pub proof fn law_moments(secs: i64, offset: i32)
    ensures
        has_date(secs, offset) <==> -8334601228800 <= secs <= 8210266876799 && -86400 < offset
            < 86400,
        has_short_year(secs, offset) <==> -62167219200 <= secs + offset <= 253402300799,
{
}

/// A share of a width is as many hundredths of it, rounded down, where the product
/// fits in 16 bits; what is left over is halved, rounded down.
pub proof fn law_shares_and_margins(width: u16, percent: u16, whole: int, part: int)
    ensures
        width * percent <= 65535 ==> 100 * share(width, percent) <= width * percent < 100 * share(
            width,
            percent,
        ) + 100,
        width * percent > 65535 ==> share(width, percent) == 655,
        part >= whole ==> margin(whole, part) == 0,
        part < whole ==> 0 <= whole - part - 2 * margin(whole, part) <= 1,
{
}

/// A session is called by its role and the directory's name, whole.
pub proof fn law_session_names(slug: Seq<char>)
    ensures
        session_name(ConsoleRole::Server, slug) == "shulker-"@ + slug,
        session_name(ConsoleRole::Frpc, slug) == "shulker-frpc-"@ + slug,
{
}

/// A line is sent as it is: to `tmux` with the key Enter, to a pseudo-terminal in
/// UTF-8 with a carriage return and a line feed, if there is one.
pub proof fn law_lines_are_sent_as_they_are(console: Console, present: bool, text: Seq<char>)
    ensures
        console.backend is Tmux ==> console.line_step(present, text) == StepView::Tmux(
            seq!["send-keys"@, "-t"@, console.session_name@, text, "Enter"@],
        ),
        console.backend is Pty && present ==> console.line_step(present, text) == StepView::Write(
            encode_utf8(text).push(13).push(10),
        ),
        console.backend is Pty && !present ==> console.line_step(present, text) == StepView::Fail(
            "console not running"@,
        ),
{
    assert(console_line(text) =~= encode_utf8(text).push(13).push(10));
}

/// A scrollback forgets nothing while there is room for 262144 bytes, and then as
/// little as it must, from the front.
pub proof fn law_scrollback_forgets_from_the_front(shown: Seq<u8>)
    ensures
        shown.len() <= 262144 ==> kept(shown) == shown,
        shown.len() > 262144 ==> kept(shown) == shown.subrange(
            shown.len() - 262144,
            shown.len() as int,
        ),
{
}

} // verus!
