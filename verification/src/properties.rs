//! The server's settings file: lines of `key=value`, with comment lines.

use crate::clock::{rfc2822_text, LocalTime};
use crate::text::{
    chars_of, find_char, is_space, leading_space, lemma_find_char, lemma_find_char_unique, lines,
    lines_of, position_of, same, string_of, strip_return, trim_back, trim_chars, trim_front,
    trimmed, views,
};
use vstd::prelude::*;
use vstd::string::*;

verus! {

/// Settings as text: keys and values, in the order of the file.
pub type Settings = Seq<(Seq<char>, Seq<char>)>;

/// The settings that a list of strings holds.
pub open spec fn settings(props: Seq<(String, String)>) -> Settings {
    props.map_values(|p: (String, String)| (p.0@, p.1@))
}

// ---------- Reading ----------

/// The setting on a line. A line that is blank or begins, after white space,
/// with `#` has none, nor has one without `=`. The key is what stands before
/// the first `=`, without the white space around it; the value is all that
/// follows.
pub open spec fn line_setting(line: Seq<char>) -> Option<(Seq<char>, Seq<char>)> {
    let t = trim_front(line);
    let n = find_char(line, '=');
    if t.len() == 0 || t[0] == '#' || n == line.len() {
        None
    } else {
        Some((trimmed(line.take(n)), line.skip(n + 1)))
    }
}

/// The settings on some lines, in order.
pub open spec fn line_settings(ls: Seq<Seq<char>>) -> Settings
    decreases ls.len(),
{
    if ls.len() == 0 {
        Seq::empty()
    } else {
        let rest = line_settings(ls.drop_first());
        match line_setting(ls.first()) {
            Some(p) => seq![p] + rest,
            None => rest,
        }
    }
}

/// The settings in a file's text.
pub open spec fn parsed(raw: Seq<char>) -> Settings {
    line_settings(lines(raw))
}

fn line_setting_of(line: &str) -> (r: Option<(String, String)>)
    ensures
        match r {
            Some(p) => line_setting(line@) == Some((p.0@, p.1@)),
            None => line_setting(line@) is None,
        },
{
    let v: Vec<char> = chars_of(line);
    let from: usize = leading_space(v.as_slice());
    if from == v.len() || v[from] == '#' {
        return None;
    }
    assert(v@.skip(0) =~= v@);
    let n: usize = position_of(v.as_slice(), 0, '=');
    if n == v.len() {
        return None;
    }
    let mut before: Vec<char> = Vec::new();
    let mut i: usize = 0;
    while i < n
        invariant
            i <= n <= v@.len(),
            before@ == v@.take(i as int),
        decreases n - i,
    {
        before.push(v[i]);
        i += 1;
        assert(v@.take(i as int) =~= v@.take(i - 1).push(v@[i - 1]));
    }
    let key: String = trim_chars(before.as_slice());
    let value: String = string_of(v.as_slice(), n + 1, v.len());
    assert(value@ =~= v@.skip(n + 1));
    Some((key, value))
}

/// The settings in a file's text.
pub fn read_properties(raw: &str) -> (r: Vec<(String, String)>)
    ensures
        settings(r@) == parsed(raw@),
{
    let ls: Vec<String> = lines_of(raw);
    let ghost all = views(ls@);
    let mut out: Vec<(String, String)> = Vec::new();
    let mut i: usize = 0;
    assert(all.skip(0) =~= all);
    assert(settings(out@) + line_settings(all) =~= line_settings(all));
    while i < ls.len()
        invariant
            i <= ls@.len(),
            all == views(ls@),
            line_settings(all) == settings(out@) + line_settings(all.skip(i as int)),
        decreases ls@.len() - i,
    {
        let ghost before = settings(out@);
        assert(all.skip(i as int).first() == ls@[i as int]@);
        assert(all.skip(i as int).drop_first() =~= all.skip(i + 1));
        if let Some(p) = line_setting_of(ls[i].as_str()) {
            let ghost shown = (p.0@, p.1@);
            out.push(p);
            assert(settings(out@) =~= before.push(shown));
            assert(before.push(shown) + line_settings(all.skip(i + 1)) =~= before + (seq![shown]
                + line_settings(all.skip(i + 1))));
        }
        i += 1;
    }
    assert(all.skip(i as int) =~= Seq::empty());
    assert(settings(out@) + Seq::empty() =~= settings(out@));
    out
}

// ---------- Writing ----------

/// The line of a setting.
pub open spec fn entry(p: (Seq<char>, Seq<char>)) -> Seq<char> {
    p.0 + "="@ + p.1 + "\n"@
}

/// The lines of some settings.
pub open spec fn entries(props: Settings) -> Seq<char>
    decreases props.len(),
{
    if props.len() == 0 {
        Seq::empty()
    } else {
        entry(props.first()) + entries(props.drop_first())
    }
}

/// The text of a file with these settings: two comment lines, the second with
/// the time of writing, and a line for each setting.
pub open spec fn rendered(stamp: Seq<char>, props: Settings) -> Seq<char> {
    "#Minecraft server properties\n"@ + "#"@ + stamp + "\n"@ + entries(props)
}

/// The text of a file with these settings, written at `now`.
pub fn write_properties(props: &[(String, String)], now: &LocalTime) -> (r: String)
    requires
        now.short_year(),
    ensures
        r@ == rendered(rfc2822_text(now.at(), now.east()), settings(props@)),
        storable(settings(props@)) ==> parsed(r@) == settings(props@),
{
    let stamp: String = now.to_rfc2822();
    let mut r: String = "#Minecraft server properties\n".to_owned();
    r.append("#");
    r.append(stamp.as_str());
    r.append("\n");
    let ghost all = settings(props@);
    let ghost whole = rendered(stamp@, all);
    let mut i: usize = 0;
    assert(all.skip(0) =~= all);
    while i < props.len()
        invariant
            i <= props@.len(),
            all == settings(props@),
            whole == r@ + entries(all.skip(i as int)),
        decreases props@.len() - i,
    {
        let ghost before = r@;
        assert(all.skip(i as int).first() == (props@[i as int].0@, props@[i as int].1@));
        assert(all.skip(i as int).drop_first() =~= all.skip(i + 1));
        r.append(props[i].0.as_str());
        r.append("=");
        r.append(props[i].1.as_str());
        r.append("\n");
        assert(r@ =~= before + entry(all[i as int]));
        i += 1;
        assert(whole =~= r@ + entries(all.skip(i as int)));
    }
    assert(all.skip(i as int) =~= Seq::empty());
    assert(r@ + Seq::empty() =~= r@);
    proof {
        if storable(settings(props@)) {
            law_read_gives_back_what_was_written(stamp@, settings(props@));
        }
    }
    r
}

// ---------- Looking up and changing ----------

/// The place of the first setting of `key`, or the number of settings where
/// there is none.
pub open spec fn place_of(props: Settings, key: Seq<char>) -> int
    decreases props.len(),
{
    if props.len() == 0 {
        0
    } else if props.first().0 == key {
        0
    } else {
        1 + place_of(props.drop_first(), key)
    }
}

/// What `place_of` finds: the first setting of `key`.
pub proof fn lemma_place_of(props: Settings, key: Seq<char>)
    ensures
        0 <= place_of(props, key) <= props.len(),
        place_of(props, key) < props.len() ==> props[place_of(props, key)].0 == key,
        forall|i: int| 0 <= i < place_of(props, key) ==> (#[trigger] props[i]).0 != key,
    decreases props.len(),
{
    if props.len() > 0 && props.first().0 != key {
        let rest = props.drop_first();
        lemma_place_of(rest, key);
        assert forall|i: int| 0 <= i < place_of(props, key) implies (#[trigger] props[i]).0
            != key by {
            if i > 0 {
                assert(props[i] == rest[i - 1]);
            }
        }
    }
}

/// `place_of` is determined by what it finds.
pub proof fn lemma_place_of_unique(props: Settings, key: Seq<char>, n: int)
    requires
        0 <= n <= props.len(),
        n < props.len() ==> props[n].0 == key,
        forall|i: int| 0 <= i < n ==> (#[trigger] props[i]).0 != key,
    ensures
        place_of(props, key) == n,
{
    lemma_place_of(props, key);
    let m = place_of(props, key);
    if m < n {
        assert(props[m].0 == key);
    } else if n < m {
        assert(props[n].0 == key);
    }
}

/// The value of `key`: that of its first setting.
pub open spec fn value_of(props: Settings, key: Seq<char>) -> Option<Seq<char>> {
    if place_of(props, key) < props.len() {
        Some(props[place_of(props, key)].1)
    } else {
        None
    }
}

/// The settings with `value` for `key`: in the place of its first setting, or
/// after all others.
pub open spec fn with_value(props: Settings, key: Seq<char>, value: Seq<char>) -> Settings {
    if place_of(props, key) < props.len() {
        props.update(place_of(props, key), (key, value))
    } else {
        props.push((key, value))
    }
}

/// The place of the first setting of `key`, or the number of settings.
fn find_place(props: &[(String, String)], key: &str) -> (n: usize)
    ensures
        n == place_of(settings(props@), key@),
        n <= props@.len(),
{
    let mut n: usize = 0;
    while n < props.len() && !same(props[n].0.as_str(), key)
        invariant
            n <= props@.len(),
            forall|i: int| 0 <= i < n ==> (#[trigger] settings(props@)[i]).0 != key@,
        decreases props@.len() - n,
    {
        n += 1;
    }
    proof {
        lemma_place_of_unique(settings(props@), key@, n as int);
    }
    n
}

/// The value of `key`.
pub fn get_property<'a>(props: &'a [(String, String)], key: &str) -> (r: Option<&'a str>)
    ensures
        match r {
            Some(v) => value_of(settings(props@), key@) == Some(v@),
            None => value_of(settings(props@), key@) is None,
        },
{
    let n: usize = find_place(props, key);
    if n < props.len() {
        Some(props[n].1.as_str())
    } else {
        None
    }
}

/// Sets `key` to `value`.
pub fn set_property(props: &mut Vec<(String, String)>, key: &str, value: &str)
    ensures
        settings(final(props)@) == with_value(settings(old(props)@), key@, value@),
{
    let n: usize = find_place(props.as_slice(), key);
    if n < props.len() {
        props[n] = (key.to_owned(), value.to_owned());
    } else {
        props.push((key.to_owned(), value.to_owned()));
    }
    assert(settings(props@) =~= with_value(settings(old(props)@), key@, value@));
}

// ---------- Laws ----------

/// A setting that a file can hold: the key is without white space around it,
/// without `=` and without `#` at its front, the value does not end in a
/// carriage return, and neither has a line feed.
pub open spec fn storable_setting(p: (Seq<char>, Seq<char>)) -> bool {
    &&& trimmed(p.0) == p.0
    &&& !p.0.contains('=')
    &&& !p.0.contains('\n')
    &&& p.0.len() > 0 ==> p.0[0] != '#'
    &&& !p.1.contains('\n')
    &&& p.1.len() > 0 ==> p.1.last() != '\r'
}

/// Settings that a file can hold.
pub open spec fn storable(props: Settings) -> bool {
    forall|i: int| 0 <= i < props.len() ==> storable_setting(#[trigger] props[i])
}

/// A line and what follows it.
proof fn lemma_lines_front(line: Seq<char>, rest: Seq<char>)
    requires
        !line.contains('\n'),
    ensures
        lines(line + "\n"@ + rest) == seq![strip_return(line)] + lines(rest),
{
    reveal_strlit("\n");
    let s = line + "\n"@ + rest;
    assert forall|i: int| 0 <= i < line.len() implies s[i] != '\n' by {
        assert(s[i] == line[i]);
        assert(line.contains(line[i]));
    }
    assert(s[line.len() as int] == '\n');
    lemma_find_char_unique(s, '\n', line.len() as int);
    assert(s.take(line.len() as int) =~= line);
    assert(s.skip(line.len() as int + 1) =~= rest);
}

/// A text that trimming leaves does not begin with white space.
proof fn lemma_trimmed_front(s: Seq<char>)
    requires
        trimmed(s) == s,
        s.len() > 0,
    ensures
        !is_space(s[0]),
{
    lemma_trim_lens(s.drop_first());
    lemma_trim_lens(trim_front(s));
}

proof fn lemma_trim_lens(s: Seq<char>)
    ensures
        trim_front(s).len() <= s.len(),
        trim_back(s).len() <= s.len(),
    decreases s.len(),
{
    if s.len() > 0 {
        lemma_trim_lens(s.drop_first());
        lemma_trim_lens(s.drop_last());
    }
}

/// The line of a setting that a file can hold gives the setting back.
proof fn lemma_entry_line(p: (Seq<char>, Seq<char>))
    requires
        storable_setting(p),
    ensures
        !(p.0 + "="@ + p.1).contains('\n'),
        strip_return(p.0 + "="@ + p.1) == p.0 + "="@ + p.1,
        line_setting(p.0 + "="@ + p.1) == Some(p),
{
    reveal_strlit("=");
    let line = p.0 + "="@ + p.1;
    let n = p.0.len() as int;
    assert(line[n] == '=');
    assert forall|i: int| 0 <= i < line.len() implies line[i] != '\n' by {
        if i < n {
            assert(p.0.contains(p.0[i]));
        } else if i > n {
            assert(line[i] == p.1[i - n - 1]);
            assert(p.1.contains(p.1[i - n - 1]));
        }
    }
    if p.1.len() > 0 {
        assert(line.last() == p.1.last());
    } else {
        assert(line.last() == '=');
    }
    assert forall|i: int| 0 <= i < n implies line[i] != '=' by {
        assert(p.0.contains(p.0[i]));
    }
    lemma_find_char_unique(line, '=', n);
    assert(line.take(n) =~= p.0);
    assert(line.skip(n + 1) =~= p.1);
    if n > 0 {
        lemma_trimmed_front(p.0);
        assert(line[0] == p.0[0]);
    }
    assert(trim_front(line) == line);
}

proof fn lemma_entries_read(props: Settings)
    requires
        storable(props),
    ensures
        line_settings(lines(entries(props))) == props,
    decreases props.len(),
{
    if props.len() == 0 {
        assert(line_settings(lines(entries(props))) =~= props);
    } else {
        let p = props.first();
        let rest = props.drop_first();
        assert(storable_setting(props[0]));
        assert forall|i: int| 0 <= i < rest.len() implies storable_setting(#[trigger] rest[i]) by {
            assert(rest[i] == props[i + 1]);
        }
        lemma_entries_read(rest);
        lemma_entry_line(p);
        let line = p.0 + "="@ + p.1;
        lemma_lines_front(line, entries(rest));
        assert(entries(props) =~= line + "\n"@ + entries(rest));
        let ls = lines(entries(props));
        assert(ls.first() == line);
        assert(ls.drop_first() =~= lines(entries(rest)));
        assert(props =~= seq![p] + rest);
    }
}

/// Reading gives back what was written: the same keys and values, in the same
/// order. The time of writing must be on one line.
pub proof fn law_read_gives_back_what_was_written(stamp: Seq<char>, props: Settings)
    requires
        !stamp.contains('\n'),
        storable(props),
    ensures
        parsed(rendered(stamp, props)) == props,
{
    reveal_strlit("#Minecraft server properties\n");
    reveal_strlit("#");
    reveal_strlit("\n");
    let title = "#Minecraft server properties\n"@.drop_last();
    assert(title + "\n"@ =~= "#Minecraft server properties\n"@);
    let comment = "#"@ + stamp;
    let tail = comment + "\n"@ + entries(props);
    assert(rendered(stamp, props) =~= title + "\n"@ + tail);
    assert(!title.contains('\n'));
    assert forall|i: int| 0 <= i < comment.len() implies comment[i] != '\n' by {
        if i > 0 {
            assert(comment[i] == stamp[i - 1]);
            assert(stamp.contains(stamp[i - 1]));
        }
    }
    lemma_lines_front(title, tail);
    lemma_lines_front(comment, entries(props));
    lemma_entries_read(props);
    let ls = lines(rendered(stamp, props));
    let first = strip_return(title);
    let second = strip_return(comment);
    let rest = lines(entries(props));
    assert(ls =~= seq![first] + (seq![second] + rest));
    assert(ls.first() == first);
    assert(ls.drop_first() =~= seq![second] + rest);
    assert(ls.drop_first().drop_first() =~= rest);
    assert(first[0] == '#' && second[0] == '#');
    assert(trim_front(first) == first);
    assert(trim_front(second) == second);
    assert(line_setting(first) is None && line_setting(second) is None);
    assert(line_settings(ls) == line_settings(ls.drop_first()));
    assert(line_settings(ls.drop_first()) == line_settings(rest));
}

/// A key that was set has the value that it was set to.
pub proof fn law_set_key_is_got(props: Settings, key: Seq<char>, value: Seq<char>)
    ensures
        value_of(with_value(props, key, value), key) == Some(value),
{
    lemma_place_of(props, key);
    lemma_place_of_unique(with_value(props, key, value), key, place_of(props, key));
}

/// Setting a key leaves the values of all others.
pub proof fn law_set_leaves_other_keys(
    props: Settings,
    key: Seq<char>,
    value: Seq<char>,
    other: Seq<char>,
)
    requires
        other != key,
    ensures
        value_of(with_value(props, key, value), other) == value_of(props, other),
{
    let after = with_value(props, key, value);
    lemma_place_of(props, key);
    lemma_place_of(props, other);
    let n = place_of(props, other);
    if n < props.len() {
        lemma_place_of_unique(after, other, n);
    } else {
        lemma_place_of_unique(after, other, after.len() as int);
    }
}

/// Setting a key keeps the keys and their order; a new key comes last.
pub proof fn law_set_keeps_the_order(props: Settings, key: Seq<char>, value: Seq<char>)
    ensures
        with_value(props, key, value).map_values(|p: (Seq<char>, Seq<char>)| p.0) == if value_of(
            props,
            key,
        ) is Some {
            props.map_values(|p: (Seq<char>, Seq<char>)| p.0)
        } else {
            props.map_values(|p: (Seq<char>, Seq<char>)| p.0).push(key)
        },
{
    lemma_place_of(props, key);
    assert(with_value(props, key, value).map_values(|p: (Seq<char>, Seq<char>)| p.0)
        =~= if value_of(props, key) is Some {
        props.map_values(|p: (Seq<char>, Seq<char>)| p.0)
    } else {
        props.map_values(|p: (Seq<char>, Seq<char>)| p.0).push(key)
    });
}

/// Settings that a file can hold are so still after one of them is set to such
/// a value.
pub proof fn law_set_stays_storable(props: Settings, key: Seq<char>, value: Seq<char>)
    requires
        storable(props),
        storable_setting((key, value)),
    ensures
        storable(with_value(props, key, value)),
{
    lemma_place_of(props, key);
    let after = with_value(props, key, value);
    assert forall|i: int| 0 <= i < after.len() implies storable_setting(#[trigger] after[i]) by {
        if i < props.len() && i != place_of(props, key) {
            assert(after[i] == props[i]);
        }
    }
}

/// What trimming the front leaves: all from the first character that is no
/// white space.
proof fn lemma_trim_front_shape(s: Seq<char>) -> (k: int)
    ensures
        0 <= k <= s.len(),
        trim_front(s) == s.skip(k),
        forall|i: int| 0 <= i < k ==> is_space(#[trigger] s[i]),
        k < s.len() ==> !is_space(s[k]),
    decreases s.len(),
{
    if s.len() > 0 && is_space(s.first()) {
        let k = lemma_trim_front_shape(s.drop_first());
        assert(s.drop_first().skip(k) =~= s.skip(k + 1));
        assert forall|i: int| 0 <= i < k + 1 implies is_space(#[trigger] s[i]) by {
            if i > 0 {
                assert(s[i] == s.drop_first()[i - 1]);
            }
        }
        k + 1
    } else {
        assert(s.skip(0) =~= s);
        0
    }
}

/// What trimming the end leaves: all up to the last character that is no white
/// space.
proof fn lemma_trim_back_shape(s: Seq<char>) -> (m: int)
    ensures
        0 <= m <= s.len(),
        trim_back(s) == s.take(m),
        m > 0 ==> !is_space(s[m - 1]),
    decreases s.len(),
{
    if s.len() > 0 && is_space(s.last()) {
        let m = lemma_trim_back_shape(s.drop_last());
        assert(s.drop_last().take(m) =~= s.take(m));
        m
    } else {
        assert(s.take(s.len() as int) =~= s);
        s.len() as int
    }
}

/// The setting on a line without a line feed is one that a file can hold,
/// unless its value ends in a carriage return.
proof fn lemma_line_setting_storable(line: Seq<char>)
    requires
        !line.contains('\n'),
        line_setting(line) is Some,
        (line_setting(line)->0).1.len() > 0 ==> (line_setting(line)->0).1.last() != '\r',
    ensures
        storable_setting(line_setting(line)->0),
{
    let (key, value) = line_setting(line)->0;
    let n = find_char(line, '=');
    lemma_find_char(line, '=');
    let front = line.take(n);
    let k = lemma_trim_front_shape(front);
    let m = lemma_trim_back_shape(front.skip(k));
    assert(key == front.skip(k).take(m));
    assert forall|i: int| 0 <= i < key.len() implies key[i] == line[k + i] && key[i] != '='
        && key[i] != '\n' by {
        assert(line.contains(line[k + i]));
    }
    assert forall|i: int| 0 <= i < value.len() implies value[i] != '\n' by {
        assert(value[i] == line[n + 1 + i]);
        assert(line.contains(line[n + 1 + i]));
    }
    assert(trim_front(key) == key);
    assert(trim_back(key) == key);
    if key.len() > 0 {
        let j = lemma_trim_front_shape(line);
        assert(front[k] == line[k]);
        assert(!is_space(line[k]));
        if j < k {
            assert(is_space(front[j]));
            assert(front[j] == line[j]);
        }
        assert(j == k);
        assert(trim_front(line)[0] == line[k]);
        assert(key[0] == line[k]);
    }
}

proof fn lemma_lines_have_no_feed(s: Seq<char>)
    ensures
        forall|i: int| 0 <= i < lines(s).len() ==> !(#[trigger] lines(s)[i]).contains('\n'),
    decreases s.len(),
{
    if s.len() > 0 {
        let n = find_char(s, '\n');
        lemma_find_char(s, '\n');
        if n < s.len() {
            let first = strip_return(s.take(n));
            let rest = s.skip(n + 1);
            lemma_lines_have_no_feed(rest);
            assert forall|i: int| 0 <= i < first.len() implies first[i] != '\n' by {
                assert(first[i] == s[i]);
            }
            assert forall|i: int| 0 <= i < lines(s).len() implies !(
            #[trigger] lines(s)[i]).contains('\n') by {
                if i > 0 {
                    assert(lines(s)[i] == lines(rest)[i - 1]);
                }
            }
        }
    }
}

/// No value ends in a carriage return.
pub open spec fn no_trailing_return(props: Settings) -> bool {
    forall|i: int|
        0 <= i < props.len() ==> ((#[trigger] props[i]).1.len() > 0 ==> props[i].1.last() != '\r')
}

proof fn lemma_line_settings_storable(ls: Seq<Seq<char>>)
    requires
        forall|i: int| 0 <= i < ls.len() ==> !(#[trigger] ls[i]).contains('\n'),
        no_trailing_return(line_settings(ls)),
    ensures
        storable(line_settings(ls)),
    decreases ls.len(),
{
    if ls.len() > 0 {
        let all = line_settings(ls);
        let tail = ls.drop_first();
        let rest = line_settings(tail);
        assert forall|i: int| 0 <= i < tail.len() implies !(#[trigger] tail[i]).contains('\n') by {
            assert(tail[i] == ls[i + 1]);
        }
        let shift: int = if line_setting(ls.first()) is Some {
            1
        } else {
            0
        };
        assert forall|i: int| 0 <= i < rest.len() implies #[trigger] rest[i] == all[i + shift] by {}
        assert(no_trailing_return(rest)) by {
            assert forall|i: int| 0 <= i < rest.len() implies ((#[trigger] rest[i]).1.len() > 0
                ==> rest[i].1.last() != '\r') by {
                assert(rest[i] == all[i + shift]);
            }
        }
        lemma_line_settings_storable(tail);
        if shift == 1 {
            assert(!ls[0].contains('\n'));
            assert(all[0] == line_setting(ls.first())->0);
            lemma_line_setting_storable(ls.first());
        }
        assert forall|i: int| 0 <= i < all.len() implies storable_setting(#[trigger] all[i]) by {
            if i >= shift {
                assert(all[i] == rest[i - shift]);
            }
        }
    }
}

/// What is read from a file can be written to one, where no value ends in a
/// carriage return.
pub proof fn law_what_is_read_can_be_stored(raw: Seq<char>)
    requires
        no_trailing_return(parsed(raw)),
    ensures
        storable(parsed(raw)),
{
    lemma_lines_have_no_feed(raw);
    lemma_line_settings_storable(lines(raw));
}

/// Reading a file, setting a key and writing the file leaves, for whoever reads
/// it next, the settings with that key set and all else as it was.
pub proof fn law_an_edit_survives_the_file(
    raw: Seq<char>,
    key: Seq<char>,
    value: Seq<char>,
    stamp: Seq<char>,
)
    requires
        no_trailing_return(parsed(raw)),
        storable_setting((key, value)),
        !stamp.contains('\n'),
    ensures
        parsed(rendered(stamp, with_value(parsed(raw), key, value))) == with_value(
            parsed(raw),
            key,
            value,
        ),
{
    law_what_is_read_can_be_stored(raw);
    law_set_stays_storable(parsed(raw), key, value);
    law_read_gives_back_what_was_written(stamp, with_value(parsed(raw), key, value));
}

} // verus!
