//! What the tunnel service's answers mean, said of the documents and texts
//! themselves.

use crate::json::{field_named, JsonTree};
use crate::natfrp::{
    address, all_numbered, api_request, bearer, body_of, by_number, created_id, decimals, entry_id,
    entry_state, failure_error, first_unnumbered, flat_states, label, launcher_request,
    launcher_states, listed_states, marks_games, redacted, renumbered, status_error, traffic_size,
    valid_name, ErrorView, HttpFailure, Node, PayloadView, Reply, RequestView, Tunnel,
};
use crate::sizes::{one_place, shortened, two_places};
use crate::text::{decimal, is_alnum, lower, number};
use crate::text_laws::{law_part_between, law_parts_occur};
use vstd::prelude::*;

verus! {

// ---------- Documents ----------

/// A field is found by its name: the first that has that very name, and none
/// where none has it. Only objects have fields.
pub proof fn law_fields_are_found_by_name(
    fields: Seq<(Seq<char>, JsonTree)>,
    name: Seq<char>,
    n: int,
)
    requires
        0 <= n <= fields.len(),
        forall|i: int| 0 <= i < n ==> (#[trigger] fields[i]).0 != name,
        n < fields.len() ==> fields[n].0 == name,
    ensures
        JsonTree::Object(fields).get(name) == if n < fields.len() {
            Some(fields[n].1)
        } else {
            None
        },
        JsonTree::Null.get(name) is None,
        forall|items: Seq<JsonTree>| (#[trigger] JsonTree::Array(items).get(name)) is None,
    decreases n,
{
    if n > 0 {
        assert(fields[0].0 != name);
        let rest = fields.drop_first();
        assert forall|i: int| 0 <= i < n - 1 implies (#[trigger] rest[i]).0 != name by {
            assert(rest[i] == fields[i + 1]);
        }
        law_fields_are_found_by_name(rest, name, n - 1);
        assert(field_named(fields, name) == field_named(rest, name));
    }
}

/// A document is a number or a truth value where it says so, and then that one.
pub proof fn law_plain_documents(n: Option<u64>, b: bool, text: Seq<char>, items: Seq<JsonTree>)
    ensures
        JsonTree::Number(n).as_u64() == n,
        JsonTree::Bool(b).as_u64() is None,
        JsonTree::Text(text).as_u64() is None,
        JsonTree::Null.as_u64() is None,
        JsonTree::Array(items).as_u64() is None,
        JsonTree::Bool(b).as_bool() == Some(b),
        JsonTree::Number(n).as_bool() is None,
        JsonTree::Text(text).as_bool() is None,
        JsonTree::Null.as_bool() is None,
        JsonTree::Array(items).as_bool() is None,
{
}

/// The field that stands at `i`, alone under its name, is the one that is found.
proof fn lemma_lone_field(fields: Seq<(Seq<char>, JsonTree)>, i: int)
    requires
        0 <= i < fields.len(),
        forall|k: int| 0 <= k < fields.len() && k != i ==> (#[trigger] fields[k]).0 != fields[i].0,
    ensures
        JsonTree::Object(fields).get(fields[i].0) == Some(fields[i].1),
{
    law_fields_are_found_by_name(fields, fields[i].0, i);
}

proof fn lemma_no_field(fields: Seq<(Seq<char>, JsonTree)>, name: Seq<char>)
    requires
        forall|k: int| 0 <= k < fields.len() ==> (#[trigger] fields[k]).0 != name,
    ensures
        JsonTree::Object(fields).get(name) is None,
{
    law_fields_are_found_by_name(fields, name, fields.len() as int);
}

/// The name of a field that tells a tunnel's state.
pub open spec fn is_state_name(name: Seq<char>) -> bool {
    name == "enabled"@ || name == "Enabled"@ || name == "running"@ || name == "Running"@
}

proof fn lemma_names_differ()
    ensures
        "enabled"@ != "Enabled"@,
        "enabled"@ != "running"@,
        "enabled"@ != "Running"@,
        "Enabled"@ != "running"@,
        "Enabled"@ != "Running"@,
        "running"@ != "Running"@,
        "id"@ != "Id"@,
{
    reveal_strlit("enabled");
    reveal_strlit("Enabled");
    reveal_strlit("running");
    reveal_strlit("Running");
    reveal_strlit("id");
    reveal_strlit("Id");
    assert("enabled"@[0] == 'e' && "Enabled"@[0] == 'E' && "running"@[0] == 'r' && "Running"@[0]
        == 'R' && "id"@[0] == 'i' && "Id"@[0] == 'I');
}

/// An entry with an id, called `id` or `Id`, and one field that tells a state,
/// whichever of the four names it has, reports just that state for that id, on or
/// off; what other entries before it report stays, but for that id.
pub proof fn law_an_entry_reports_its_state(
    items: Seq<JsonTree>,
    fields: Seq<(Seq<char>, JsonTree)>,
    i: int,
    j: int,
    id: u64,
    on: bool,
)
    requires
        0 <= i < fields.len(),
        0 <= j < fields.len(),
        fields[i].0 == "id"@ || fields[i].0 == "Id"@,
        fields[i].1 == JsonTree::Number(Some(id)),
        forall|k: int|
            0 <= k < fields.len() && k != i ==> (#[trigger] fields[k]).0 != "id"@ && fields[k].0
                != "Id"@,
        is_state_name(fields[j].0),
        fields[j].1 == JsonTree::Bool(on),
        forall|k: int| 0 <= k < fields.len() && k != j ==> !is_state_name((#[trigger] fields[k]).0),
    ensures
        launcher_states(JsonTree::Array(items.push(JsonTree::Object(fields)))) == launcher_states(
            JsonTree::Array(items),
        ).insert(id, on),
        launcher_states(JsonTree::Array(seq![JsonTree::Object(fields)]))
            == Map::<u64, bool>::empty().insert(id, on),
{
    let entry = JsonTree::Object(fields);
    lemma_names_differ();
    lemma_lone_field(fields, i);
    lemma_lone_field(fields, j);
    if fields[i].0 == "Id"@ {
        lemma_no_field(fields, "id"@);
    }
    if fields[j].0 != "enabled"@ {
        lemma_no_field(fields, "enabled"@);
    }
    if fields[j].0 != "Enabled"@ {
        lemma_no_field(fields, "Enabled"@);
    }
    if fields[j].0 != "running"@ {
        lemma_no_field(fields, "running"@);
    }
    if fields[j].0 != "Running"@ {
        lemma_no_field(fields, "Running"@);
    }
    assert(entry_id(entry) == Some(id));
    assert(entry_state(entry) == Some(on));
    assert(items.push(entry).drop_last() =~= items);
    let one = seq![entry];
    assert(one.drop_last() =~= Seq::<JsonTree>::empty());
    assert(listed_states(Seq::<JsonTree>::empty()) =~= Map::<u64, bool>::empty());
}

/// What was found is a truth value.
pub open spec fn is_truth(t: Option<JsonTree>) -> bool {
    t is Some && t->0 is Bool
}

/// What was found is an unsigned integer.
pub open spec fn is_count(t: Option<JsonTree>) -> bool {
    t matches Some(JsonTree::Number(n)) && n is Some
}

/// Where an entry has several fields that tell a state, the first that is a truth
/// value counts, in the order `enabled`, `Enabled`, `running`, `Running`; and
/// `id` counts before `Id`.
pub proof fn law_the_plain_names_count_first(t: JsonTree, on: bool, id: u64)
    ensures
        t.get("enabled"@) == Some(JsonTree::Bool(on)) ==> entry_state(t) == Some(on),
        !is_truth(t.get("enabled"@)) ==> {
            &&& t.get("Enabled"@) == Some(JsonTree::Bool(on)) ==> entry_state(t) == Some(on)
            &&& !is_truth(t.get("Enabled"@)) ==> {
                &&& t.get("running"@) == Some(JsonTree::Bool(on)) ==> entry_state(t) == Some(on)
                &&& !is_truth(t.get("running"@)) ==> {
                    &&& t.get("Running"@) == Some(JsonTree::Bool(on)) ==> entry_state(t) == Some(
                        on,
                    )
                    &&& !is_truth(t.get("Running"@))
                        ==> entry_state(t) is None
                }
            }
        },
        t.get("id"@) == Some(JsonTree::Number(Some(id))) ==> entry_id(t) == Some(id),
        !is_count(t.get("id"@)) ==> {
            &&& t.get("Id"@) == Some(JsonTree::Number(Some(id))) ==> entry_id(t) == Some(id)
            &&& !is_count(t.get("Id"@))
                ==> entry_id(t) is None
        },
{
}

/// An entry without an id, or without a state, reports nothing.
pub proof fn law_other_entries_report_nothing(
    items: Seq<JsonTree>,
    fields: Seq<(Seq<char>, JsonTree)>,
)
    requires
        (forall|k: int|
            0 <= k < fields.len() ==> (#[trigger] fields[k]).0 != "id"@ && fields[k].0 != "Id"@)
            || (forall|k: int| 0 <= k < fields.len() ==> !is_state_name((#[trigger] fields[k]).0)),
    ensures
        launcher_states(JsonTree::Array(items.push(JsonTree::Object(fields)))) == launcher_states(
            JsonTree::Array(items),
        ),
        launcher_states(JsonTree::Array(Seq::empty())) == Map::<u64, bool>::empty(),
{
    let entry = JsonTree::Object(fields);
    assert(items.push(entry).drop_last() =~= items);
    if forall|k: int|
        0 <= k < fields.len() ==> (#[trigger] fields[k]).0 != "id"@ && fields[k].0 != "Id"@ {
        lemma_no_field(fields, "id"@);
        lemma_no_field(fields, "Id"@);
    } else {
        lemma_no_field(fields, "enabled"@);
        lemma_no_field(fields, "Enabled"@);
        lemma_no_field(fields, "running"@);
        lemma_no_field(fields, "Running"@);
    }
}

/// In an object without a list of tunnels, each field that is called by a number
/// and is a truth value reports that state for that id; other fields report
/// nothing.
pub proof fn law_a_flat_field_reports_its_state(
    fields: Seq<(Seq<char>, JsonTree)>,
    name: Seq<char>,
    t: JsonTree,
)
    requires
        forall|k: int| 0 <= k < fields.len() ==> (#[trigger] fields[k]).0 != "tunnels"@,
        name != "tunnels"@,
    ensures
        ({
            let before = launcher_states(JsonTree::Object(fields));
            let after = launcher_states(JsonTree::Object(fields.push((name, t))));
            &&& forall|id: u64, on: bool|
                number(name) == Some(id) && t == JsonTree::Bool(on) ==> after
                    == #[trigger] before.insert(id, on)
            &&& number(name) is None || !(t is Bool) ==> after == before
        }),
        launcher_states(JsonTree::Object(Seq::empty())) == Map::<u64, bool>::empty(),
{
    let more = fields.push((name, t));
    lemma_no_field(fields, "tunnels"@);
    assert forall|k: int| 0 <= k < more.len() implies (#[trigger] more[k]).0 != "tunnels"@ by {
        if k < fields.len() {
            assert(more[k] == fields[k]);
        }
    }
    lemma_no_field(more, "tunnels"@);
    assert(more.drop_last() =~= fields);
    lemma_no_field(Seq::empty(), "tunnels"@);
    assert(flat_states(Seq::empty()) =~= Map::<u64, bool>::empty());
}

/// The launcher's list may stand in the field `tunnels`, wherever in the object
/// that is; an answer that is neither list nor object reports nothing.
pub proof fn law_the_list_may_be_wrapped(
    fields: Seq<(Seq<char>, JsonTree)>,
    i: int,
    items: Seq<JsonTree>,
    text: Seq<char>,
    n: Option<u64>,
    b: bool,
)
    requires
        0 <= i < fields.len(),
        fields[i] == ("tunnels"@, JsonTree::Array(items)),
        forall|k: int| 0 <= k < fields.len() && k != i ==> (#[trigger] fields[k]).0 != "tunnels"@,
    ensures
        launcher_states(JsonTree::Object(fields)) == launcher_states(JsonTree::Array(items)),
        launcher_states(JsonTree::Null) == Map::<u64, bool>::empty(),
        launcher_states(JsonTree::Bool(b)) == Map::<u64, bool>::empty(),
        launcher_states(JsonTree::Number(n)) == Map::<u64, bool>::empty(),
        launcher_states(JsonTree::Text(text)) == Map::<u64, bool>::empty(),
{
    lemma_lone_field(fields, i);
}

/// The id of a new tunnel is the number in the answer's field `id`, or else that
/// in the field `id` of the answer's field `data`, and otherwise there is none.
pub proof fn law_the_new_tunnels_id(t: JsonTree, data: JsonTree, id: u64)
    ensures
        t.get("id"@) == Some(JsonTree::Number(Some(id))) ==> created_id(t) == Some(id),
        !is_count(t.get("id"@)) ==> {
            &&& t.get("data"@) is None ==> created_id(t) is None
            &&& t.get("data"@) == Some(data) ==> {
                &&& data.get("id"@) == Some(JsonTree::Number(Some(id))) ==> created_id(t) == Some(
                    id,
                )
                &&& !is_count(data.get("id"@))
                    ==> created_id(t) is None
            }
        },
{
}

// ---------- Numbered entries ----------

/// Entries are kept by the numbers that their names are; a later entry takes the
/// place of an earlier one of the same number, and leaves all others.
pub proof fn law_entries_are_kept_by_number<V>(entries: Seq<(String, V)>, name: String, value: V)
    requires
        number(name@) is Some,
    ensures
        by_number(Seq::<(String, V)>::empty()) == Map::<u64, V>::empty(),
        by_number(entries.push((name, value))) == by_number(entries).insert(
            number(name@)->0,
            value,
        ),
        all_numbered(entries.push((name, value))) <==> all_numbered(entries),
{
    let more = entries.push((name, value));
    assert(more.drop_last() =~= entries);
    if all_numbered(entries) {
        assert forall|i: int| 0 <= i < more.len() implies number(
            (#[trigger] more[i]).0@,
        ) is Some by {
            if i < entries.len() {
                assert(more[i] == entries[i]);
            }
        }
    }
    if all_numbered(more) {
        assert forall|i: int| 0 <= i < entries.len() implies number(
            (#[trigger] entries[i]).0@,
        ) is Some by {
            assert(more[i] == entries[i]);
        }
    }
}

/// The name that is complained of is no number, and every name before it is one.
pub proof fn law_the_first_other_name_is_told<V>(entries: Seq<(String, V)>, n: int, name: Seq<char>)
    requires
        0 <= n < entries.len(),
        number(entries[n].0@) is None,
        forall|i: int| 0 <= i < n ==> number((#[trigger] entries[i]).0@) is Some,
    ensures
        first_unnumbered(entries, name) <==> name == entries[n].0@,
        !all_numbered(entries),
{
    assert forall|i: int| 0 <= i < n implies number((#[trigger] entries.take(n)[i]).0@) is Some by {
        assert(entries.take(n)[i] == entries[i]);
    }
    assert(all_numbered(entries.take(n)));
    if first_unnumbered(entries, name) {
        let i = choose|i: int|
            0 <= i < entries.len() && (#[trigger] entries[i]).0@ == name && number(name) is None
                && all_numbered(entries.take(i));
        if n < i {
            assert(entries.take(i)[n] == entries[n]);
        }
    }
}

/// Every counter is kept, under the number that its name is, with its own value
/// where no other name is that number.
pub proof fn law_counters_are_kept(
    m: Map<Seq<char>, u64>,
    out: Map<u64, u64>,
    name: Seq<char>,
)
    requires
        renumbered(m, out),
        m.contains_key(name),
        forall|other: Seq<char>| #[trigger]
            m.contains_key(other) && number(other) == number(name) ==> other == name,
    ensures
        number(name) is Some,
        out.contains_key(number(name)->0),
        out[number(name)->0] == m[name],
{
    let n = number(name)->0;
    assert(out.contains_key(n));
    let other = choose|other: Seq<char>|
        m.contains_pair(other, out[n]) && #[trigger] number(other) == Some(n);
    assert(m.contains_key(other));
}

// ---------- Requests and replies ----------

/// A request goes to the service's or the launcher's address with the path behind
/// it, shows the secret as it is, and carries what it is given.
pub proof fn law_requests(secret: Seq<char>, path: Seq<char>, payload: PayloadView)
    ensures
        api_request(secret, path, payload) == (RequestView {
            url: "https://api.natfrp.com/v4"@ + path,
            authorization: "Bearer "@ + secret,
            payload,
        }),
        launcher_request(secret, path, payload) == (RequestView {
            url: "https://127.0.0.1:7102"@ + path,
            authorization: "Bearer "@ + secret,
            payload,
        }),
        bearer(secret) == "Bearer "@ + secret,
{
}

/// Ids are written one by one, in their order.
pub proof fn law_ids_are_written_in_order(ids: Seq<u64>, id: u64)
    ensures
        decimals(ids.push(id)) == decimals(ids).push(decimal(id as nat)),
        decimals(Seq::empty()) == Seq::<Seq<char>>::empty(),
{
    assert(decimals(ids.push(id)) =~= decimals(ids).push(decimal(id as nat)));
    assert(decimals(Seq::empty()) =~= Seq::<Seq<char>>::empty());
}

/// Status 401 and 403 are errors of their own, 500 to 599 are the service's, and
/// every other status is told as it is.
pub proof fn law_statuses(code: u16)
    ensures
        status_error(code) == ErrorView::Unauthorized <==> code == 401,
        status_error(code) == ErrorView::Forbidden <==> code == 403,
        500 <= code < 600 ==> status_error(code) == ErrorView::ServerError(code),
        code != 401 && code != 403 && (code < 500 || code >= 600) ==> status_error(code)
            == ErrorView::HttpError(code),
{
}

/// A success is its body, whole; a status is its error, and what could not be
/// sent or read is a network error with the reason, whole.
pub proof fn law_replies(body: String, code: u16, why: String)
    ensures
        body_of(Reply::Body(body)) == Ok::<Seq<char>, ErrorView>(body@),
        body_of(Reply::Failed(HttpFailure::Status(code))) == Err::<Seq<char>, ErrorView>(
            status_error(code),
        ),
        body_of(Reply::Failed(HttpFailure::Transport(why))) == Err::<Seq<char>, ErrorView>(
            ErrorView::Network(why@),
        ),
        body_of(Reply::Unread(why)) == Err::<Seq<char>, ErrorView>(ErrorView::Network(why@)),
        failure_error(HttpFailure::Status(code)) == status_error(code),
{
}

/// An error's message has its status or its reason, whole.
pub proof fn law_messages(code: u16, why: Seq<char>)
    ensures
        ErrorView::Unauthorized.message() == "401 Unauthorized"@,
        ErrorView::Forbidden.message() == "403 Forbidden"@,
        ErrorView::ServerError(code).message() == decimal(code as nat) + " server error"@,
        ErrorView::HttpError(code).message() == "HTTP "@ + decimal(code as nat),
        ErrorView::Network(why).message() == "network: "@ + why,
        ErrorView::Parse(why).message() == "parse: "@ + why,
{
}

// ---------- Names, addresses and labels ----------

/// A digit, an ASCII letter or an underscore, by its code.
pub open spec fn is_word_code(c: char) -> bool {
    48 <= c as u32 <= 57 || 65 <= c as u32 <= 90 || c as u32 == 95 || 97 <= c as u32 <= 122
}

proof fn lemma_word_code(c: char)
    ensures
        is_word_code(c) <==> is_alnum(c) || c == '_',
{
}

/// A name is valid exactly where it has one to 32 characters, each a digit, an
/// ASCII letter or an underscore.
pub proof fn law_valid_names(name: Seq<char>)
    ensures
        valid_name(name) <==> 1 <= name.len() <= 32 && forall|i: int|
            0 <= i < name.len() ==> is_word_code(#[trigger] name[i]),
{
    assert forall|i: int| 0 <= i < name.len() implies is_word_code(#[trigger] name[i]) == (is_alnum(
        name[i],
    ) || name[i] == '_') by {
        lemma_word_code(name[i]);
    }
}

/// Any text with `mc`, `game` or `minecraft` in it, in small letters or capitals,
/// or with the two characters for game, marks a node for games, whatever stands
/// around it.
pub proof fn law_markers_count_wherever_they_stand(
    x: Seq<char>,
    marker: Seq<char>,
    y: Seq<char>,
)
    requires
        lower(marker) == "mc"@ || lower(marker) == "game"@ || lower(marker) == "minecraft"@
            || marker == "游戏"@,
    ensures
        marks_games(x + marker + y),
{
    if marker == "游戏"@ {
        law_part_between(x, marker, y);
    } else {
        assert(lower(x + marker + y) =~= lower(x) + lower(marker) + lower(y));
        law_part_between(lower(x), lower(marker), lower(y));
    }
}

/// A description that has none of the markers in it does not mark a node.
pub proof fn law_only_markers_mark(description: Seq<char>)
    requires
        forall|x: Seq<char>, y: Seq<char>| description != #[trigger] (x + "游戏"@ + y),
        forall|x: Seq<char>, y: Seq<char>| lower(description) != #[trigger] (x + "mc"@ + y),
        forall|x: Seq<char>, y: Seq<char>| lower(description) != #[trigger] (x + "game"@ + y),
        forall|x: Seq<char>, y: Seq<char>| lower(description) != #[trigger] (x + "minecraft"@ + y),
    ensures
        !marks_games(description),
{
    law_parts_occur(description, "游戏"@);
    law_parts_occur(lower(description), "mc"@);
    law_parts_occur(lower(description), "game"@);
    law_parts_occur(lower(description), "minecraft"@);
}

/// An address is the host of the tunnel's own node, a colon, and the tunnel's
/// public port, whole; there is none where one of these is not known.
pub proof fn law_addresses(t: Tunnel, nodes: Map<u64, Node>)
    ensures
        nodes.contains_key(t.node) && nodes[t.node].host@.len() > 0 && t.remote@.len() > 0
            ==> address(t, nodes) == Some(nodes[t.node].host@ + ":"@ + t.remote@),
        !nodes.contains_key(t.node) ==> address(t, nodes) is None,
        nodes.contains_key(t.node) && nodes[t.node].host@.len() == 0 ==> address(t, nodes) is None,
        t.remote@.len() == 0 ==> address(t, nodes) is None,
{
}

/// A node is called by its id and, where it is known, its name, whole.
pub proof fn law_labels(id: u64, nodes: Map<u64, Node>)
    ensures
        nodes.contains_key(id) ==> label(id, nodes) == "#"@ + decimal(id as nat) + " "@
            + nodes[id].name@,
        !nodes.contains_key(id) ==> label(id, nodes) == "#"@ + decimal(id as nat),
{
}

/// The tunnel list shows a count in the unit that its size calls for: whole bytes
/// and kilobytes, rounded down, megabytes to one place and more to two, without
/// idle zeros.
pub proof fn law_traffic_sizes(n: nat)
    ensures
        n < 1024 ==> traffic_size(n) == decimal(n) + " B"@,
        1024 <= n < 1048576 ==> traffic_size(n) == decimal(n / 1024) + " KB"@,
        1048576 <= n < 1073741824 ==> traffic_size(n) == shortened(one_place(n, 1048576)) + " MB"@,
        1073741824 <= n < 1099511627776 ==> traffic_size(n) == shortened(two_places(n, 1073741824))
            + " GB"@,
        1099511627776 <= n ==> traffic_size(n) == shortened(two_places(n, 1099511627776)) + " TB"@,
{
}

/// A token shows its first four characters, or all where it has fewer, and four
/// stars.
pub proof fn law_tokens_show_four_characters(token: Seq<char>)
    ensures
        token.len() >= 4 ==> redacted(token) == seq![token[0], token[1], token[2], token[3]]
            + "****"@,
        token.len() < 4 ==> redacted(token) == token + "****"@,
{
    if token.len() >= 4 {
        assert(token.take(4) =~= seq![token[0], token[1], token[2], token[3]]);
    } else {
        assert(token.take(token.len() as int) =~= token);
    }
}

} // verus!
