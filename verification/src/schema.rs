//! The clispec v0.2 contract that `tasmota schema` prints: the tool's global
//! options, its commands, and the error kinds with their exit codes.
//!
//! The whole document is stated as its compact JSON text, built up from the text of
//! each option and command. The `errors` table is built from the library's own
//! [`Error`] values, so every kind and exit code it declares is the one the tool
//! reports.

use vstd::prelude::*;
use crate::error::{Error, ErrorView, exit_code_of, kind_name};
use crate::json::{
    compact, compact_items, compact_members, jget, jstr, lemma_find_key_at, onum, ostr, quoted,
    Json,
};
use crate::text::{dec_int, dec_int_string};

verus! {

/// The kind and the exit-code text that one entry of an `errors` table declares.
pub open spec fn error_entry(j: Json) -> (Option<Seq<char>>, Option<Seq<char>>) {
    (ostr(jget(j, "kind"@)), onum(jget(j, "exit_code"@)))
}

/// The `errors` table of a contract, entry by entry.
pub open spec fn error_entries(r: Json) -> Seq<(Option<Seq<char>>, Option<Seq<char>>)> {
    match jget(r, "errors"@) {
        Some(Json::Array(v)) => v@.map_values(|j: Json| error_entry(j)),
        _ => Seq::empty(),
    }
}

/// The error kinds in the order the contract declares them.
pub open spec fn declared_errors() -> Seq<ErrorView> {
    seq![
        ErrorView::Usage(Seq::empty()),
        ErrorView::NotFound(Seq::empty()),
        ErrorView::Auth(Seq::empty()),
        ErrorView::Network(Seq::empty()),
        ErrorView::CommandRejected(Seq::empty(), Seq::empty()),
        ErrorView::Parse(Seq::empty()),
        ErrorView::Io(Seq::empty()),
        ErrorView::Unavailable(Seq::empty()),
        ErrorView::Aborted(Seq::empty()),
    ]
}

/// What the table declares of an error: its kind name and its exit code in decimal.
pub open spec fn declared_entry(e: ErrorView) -> (Option<Seq<char>>, Option<Seq<char>>) {
    (Some(kind_name(e)), Some(dec_int(exit_code_of(e) as int)))
}

/// Texts separated by commas.
pub open spec fn joined(parts: Seq<Seq<char>>) -> Seq<char>
    decreases parts.len(),
{
    if parts.len() == 0 {
        Seq::empty()
    } else if parts.len() == 1 {
        parts[0]
    } else {
        joined(parts.drop_last()) + seq![','] + parts.last()
    }
}

/// The compact text of the member `key: value`, `value` given as its text.
pub open spec fn field(key: Seq<char>, value: Seq<char>) -> Seq<char> {
    quoted(key) + seq![':'] + value
}

/// The compact text of an object with the given member texts, in order.
pub open spec fn object_text(fields: Seq<Seq<char>>) -> Seq<char> {
    seq!['{'] + joined(fields) + seq!['}']
}

/// The compact text of an array with the given item texts, in order.
pub open spec fn array_text(items: Seq<Seq<char>>) -> Seq<char> {
    seq!['['] + joined(items) + seq![']']
}

pub open spec fn bool_text(b: bool) -> Seq<char> {
    if b {
        "true"@
    } else {
        "false"@
    }
}

/// The texts of the items of an array.
pub open spec fn item_texts(a: Seq<Json>) -> Seq<Seq<char>> {
    Seq::new(a.len(), |i: int| compact(a[i]))
}

/// The texts of the members of an object.
pub open spec fn member_texts(es: Seq<(String, Json)>) -> Seq<Seq<char>> {
    Seq::new(es.len(), |i: int| field(es[i].0@, compact(es[i].1)))
}

/// An option, argument or output field: `{"name", "type", "description"}`.
#[verifier::opaque]
pub open spec fn described_text(name: Seq<char>, ty: Seq<char>, description: Seq<char>) -> Seq<
    char,
> {
    object_text(
        seq![
            field("name"@, quoted(name)),
            field("type"@, quoted(ty)),
            field("description"@, quoted(description)),
        ],
    )
}

/// An output field: `{"name", "type"}`.
#[verifier::opaque]
pub open spec fn field_text(name: Seq<char>, ty: Seq<char>) -> Seq<char> {
    object_text(seq![field("name"@, quoted(name)), field("type"@, quoted(ty))])
}

/// An option with a default: `{"name", "type", "default", "description"}`.
#[verifier::opaque]
pub open spec fn defaulted_text(
    name: Seq<char>,
    ty: Seq<char>,
    default: Seq<char>,
    description: Seq<char>,
) -> Seq<char> {
    object_text(
        seq![
            field("name"@, quoted(name)),
            field("type"@, quoted(ty)),
            field("default"@, default),
            field("description"@, quoted(description)),
        ],
    )
}

/// The members every command has: its name, whether it changes a device, its
/// stability and its description.
pub open spec fn command_fields(
    name: Seq<char>,
    mutating: bool,
    stability: Seq<char>,
    description: Seq<char>,
) -> Seq<Seq<char>> {
    seq![
        field("name"@, quoted(name)),
        field("mutating"@, bool_text(mutating)),
        field("stability"@, quoted(stability)),
        field("description"@, quoted(description)),
    ]
}

/// A command: its common members, then `extra` (arguments, output fields,
/// subcommands).
#[verifier::opaque]
pub open spec fn command_text(
    name: Seq<char>,
    mutating: bool,
    stability: Seq<char>,
    description: Seq<char>,
    extra: Seq<Seq<char>>,
) -> Seq<char> {
    object_text(command_fields(name, mutating, stability, description) + extra)
}

proof fn lemma_item_texts(a: Seq<Json>)
    ensures
        compact_items(a) == joined(item_texts(a)),
    decreases a.len(),
{
    if a.len() > 1 {
        lemma_item_texts(a.drop_last());
        assert(item_texts(a.drop_last()) =~= item_texts(a).drop_last());
    }
}

proof fn lemma_member_texts(es: Seq<(String, Json)>)
    ensures
        compact_members(es) == joined(member_texts(es)),
    decreases es.len(),
{
    if es.len() > 1 {
        lemma_member_texts(es.drop_last());
        assert(member_texts(es.drop_last()) =~= member_texts(es).drop_last());
    }
}

fn text(s: &str) -> (r: Json)
    ensures
        jstr(r) == Some(s@),
        compact(r) == quoted(s@),
{
    Json::Str(String::from_str(s))
}

fn number(digits: &str) -> (r: Json)
    ensures
        compact(r) == digits@,
{
    Json::Number(String::from_str(digits))
}

/// The member `key: value`.
fn m(key: &str, value: Json) -> (r: (String, Json))
    ensures
        r.0@ == key@,
        r.1 == value,
{
    (String::from_str(key), value)
}

fn array(items: Vec<Json>) -> (r: Json)
    ensures
        compact(r) == array_text(item_texts(items@)),
        r == Json::Array(items),
{
    proof {
        lemma_item_texts(items@);
    }
    Json::Array(items)
}

fn object(es: Vec<(String, Json)>) -> (r: Json)
    ensures
        compact(r) == object_text(member_texts(es@)),
        r == Json::Object(es),
{
    proof {
        lemma_member_texts(es@);
    }
    Json::Object(es)
}

fn described(name: &str, ty: &str, description: &str) -> (r: Json)
    ensures
        compact(r) == described_text(name@, ty@, description@),
{
    reveal(described_text);
    let es = vec![m("name", text(name)), m("type", text(ty)), m("description", text(description))];
    assert(member_texts(es@) =~= seq![
        field("name"@, quoted(name@)),
        field("type"@, quoted(ty@)),
        field("description"@, quoted(description@)),
    ]);
    object(es)
}

fn field_entry(name: &str, ty: &str) -> (r: Json)
    ensures
        compact(r) == field_text(name@, ty@),
{
    reveal(field_text);
    let es = vec![m("name", text(name)), m("type", text(ty))];
    assert(member_texts(es@) =~= seq![field("name"@, quoted(name@)), field("type"@, quoted(ty@))]);
    object(es)
}

fn defaulted(name: &str, ty: &str, default: Json, description: &str) -> (r: Json)
    ensures
        compact(r) == defaulted_text(name@, ty@, compact(default), description@),
{
    reveal(defaulted_text);
    let ghost d = compact(default);
    let es = vec![
        m("name", text(name)),
        m("type", text(ty)),
        m("default", default),
        m("description", text(description)),
    ];
    assert(member_texts(es@) =~= seq![
        field("name"@, quoted(name@)),
        field("type"@, quoted(ty@)),
        field("default"@, d),
        field("description"@, quoted(description@)),
    ]);
    object(es)
}

/// A command with the members `extra` after its common ones.
fn command(name: &str, mutating: bool, stability: &str, description: &str, extra: Vec<(String, Json)>) -> (r:
    Json)
    ensures
        compact(r) == command_text(name@, mutating, stability@, description@, member_texts(extra@)),
{
    reveal(command_text);
    let mut es = vec![
        m("name", text(name)),
        m("mutating", Json::Bool(mutating)),
        m("stability", text(stability)),
        m("description", text(description)),
    ];
    assert(member_texts(es@) =~= command_fields(name@, mutating, stability@, description@));
    let ghost head = es@;
    let mut rest = extra;
    es.append(&mut rest);
    assert(member_texts(es@) =~= member_texts(head) + member_texts(extra@));
    object(es)
}

/// A command with no arguments, output fields or subcommands.
fn plain(name: &str, mutating: bool, stability: &str, description: &str) -> (r: Json)
    ensures
        compact(r) == command_text(name@, mutating, stability@, description@, Seq::empty()),
{
    let r = command(name, mutating, stability, description, Vec::new());
    assert(member_texts(Seq::<(String, Json)>::empty()) =~= Seq::<Seq<char>>::empty());
    r
}

/// The `global_args` list: the options every command takes.
#[verifier::opaque]
pub open spec fn global_args_text() -> Seq<char> {
    array_text(
        seq![
            object_text(
                seq![
                    field("name"@, quoted("--output"@)),
                    field("type"@, quoted("string"@)),
                    field(
                        "enum"@,
                        array_text(seq![quoted("auto"@), quoted("json"@), quoted("text"@)]),
                    ),
                    field("default"@, quoted("auto"@)),
                    field(
                        "description"@,
                        quoted("Output format. auto = text on a TTY, JSON when piped."@),
                    ),
                ],
            ),
            described_text("--host"@, "string"@, "Target a device by IP address or hostname."@),
            described_text(
                "--name"@,
                "string"@,
                "Target a device by cached name (see `discover`)."@,
            ),
            described_text("--group"@, "string"@, "Target a named group from groups.toml."@),
            defaulted_text("--all"@, "boolean"@, "false"@, "Target every cached device."@),
            described_text("--user"@, "string"@, "Web username; overrides TASMOTA_USER."@),
            described_text("--password"@, "string"@, "Web password; overrides TASMOTA_PASSWORD."@),
            defaulted_text("--timeout"@, "integer"@, "5"@, "Per-request timeout in seconds."@),
            defaulted_text(
                "--yes"@,
                "boolean"@,
                "false"@,
                "Skip confirmation prompts for destructive/bulk operations."@,
            ),
            defaulted_text(
                "--dry-run"@,
                "boolean"@,
                "false"@,
                "Resolve targets and print the intended action without sending it."@,
            ),
        ],
    )
}

#[verifier::spinoff_prover]
fn global_args() -> (r: Json)
    ensures
        compact(r) == global_args_text(),
{
    reveal(global_args_text);
    let choices = vec![text("auto"), text("json"), text("text")];
    assert(item_texts(choices@) =~= seq![
        compact(choices@[0]),
        compact(choices@[1]),
        compact(choices@[2]),
    ]);
    let output_arg = vec![
        m("name", text("--output")),
        m("type", text("string")),
        m("enum", array(choices)),
        m("default", text("auto")),
        m(
            "description",
            text("Output format. auto = text on a TTY, JSON when piped."),
        ),
    ];
    assert(member_texts(output_arg@) =~= seq![
        field("name"@, compact(output_arg@[0].1)),
        field("type"@, compact(output_arg@[1].1)),
        field("enum"@, compact(output_arg@[2].1)),
        field("default"@, compact(output_arg@[3].1)),
        field("description"@, compact(output_arg@[4].1)),
    ]);
    let options = vec![
        object(output_arg),
        described("--host", "string", "Target a device by IP address or hostname."),
        described(
            "--name",
            "string",
            "Target a device by cached name (see `discover`).",
        ),
        described("--group", "string", "Target a named group from groups.toml."),
        defaulted(
            "--all",
            "boolean",
            Json::Bool(false),
            "Target every cached device.",
        ),
        described("--user", "string", "Web username; overrides TASMOTA_USER."),
        described("--password", "string", "Web password; overrides TASMOTA_PASSWORD."),
        defaulted(
            "--timeout",
            "integer",
            number("5"),
            "Per-request timeout in seconds.",
        ),
        defaulted(
            "--yes",
            "boolean",
            Json::Bool(false),
            "Skip confirmation prompts for destructive/bulk operations.",
        ),
        defaulted(
            "--dry-run",
            "boolean",
            Json::Bool(false),
            "Resolve targets and print the intended action without sending it.",
        ),
    ];
    assert(item_texts(options@) =~= seq![
        compact(options@[0]),
        compact(options@[1]),
        compact(options@[2]),
        compact(options@[3]),
        compact(options@[4]),
        compact(options@[5]),
        compact(options@[6]),
        compact(options@[7]),
        compact(options@[8]),
        compact(options@[9]),
    ]);
    array(options)
}

/// The `discover` entry of the `commands` list.
#[verifier::opaque]
pub open spec fn command_discover_text() -> Seq<char> {
    command_text(
        "discover"@,
        true,
        "stable"@,
        "Scan the network for Tasmota devices and overwrite the local device cache."@,
        seq![
            field(
                "args"@,
                array_text(
                    seq![
                        described_text(
                            "--range"@,
                            "string"@,
                            "CIDR to scan (default: derived local /24)."@,
                        ),
                        defaulted_text(
                            "--concurrency"@,
                            "integer"@,
                            "64"@,
                            "Max in-flight probes."@,
                        ),
                    ],
                ),
            ),
            field(
                "output_fields"@,
                array_text(
                    seq![
                        field_text("name"@, "string"@),
                        field_text("host"@, "string"@),
                        field_text("firmware"@, "string"@),
                    ],
                ),
            ),
        ],
    )
}

fn command_discover() -> (r: Json)
    ensures
        compact(r) == command_discover_text(),
{
    reveal(command_discover_text);
    let args = vec![
        described("--range", "string", "CIDR to scan (default: derived local /24)."),
        defaulted("--concurrency", "integer", number("64"), "Max in-flight probes."),
    ];
    assert(item_texts(args@) =~= seq![compact(args@[0]), compact(args@[1])]);
    let output_fields = vec![
        field_entry("name", "string"),
        field_entry("host", "string"),
        field_entry("firmware", "string"),
    ];
    assert(item_texts(output_fields@) =~= seq![
        compact(output_fields@[0]),
        compact(output_fields@[1]),
        compact(output_fields@[2]),
    ]);
    let discover_members = vec![m("args", array(args)), m("output_fields", array(output_fields))];
    assert(member_texts(discover_members@) =~= seq![
        field("args"@, compact(discover_members@[0].1)),
        field(
            "output_fields"@,
            compact(discover_members@[1].1),
        ),
    ]);
    command(
        "discover",
        true,
        "stable",
        "Scan the network for Tasmota devices and overwrite the local device cache.",
        discover_members,
    )
}

/// The `devices` entry of the `commands` list.
#[verifier::opaque]
pub open spec fn command_devices_text() -> Seq<char> {
    command_text("devices"@, false, "stable"@, "List cached devices."@, Seq::empty())
}

fn command_devices() -> (r: Json)
    ensures
        compact(r) == command_devices_text(),
{
    reveal(command_devices_text);
    plain("devices", false, "stable", "List cached devices.")
}

/// The `status` entry of the `commands` list.
#[verifier::opaque]
pub open spec fn command_status_text() -> Seq<char> {
    command_text(
        "status"@,
        false,
        "stable"@,
        "Show full device status. Targets the device selected by the global --host/--name/--group/--all options."@,
        seq![
            field(
                "output_fields"@,
                array_text(
                    seq![
                        field_text("name"@, "string"@),
                        field_text("relays"@, "object[]"@),
                        field_text("firmware"@, "string"@),
                        described_text(
                            "energy"@,
                            "object"@,
                            "null when the device has no energy sensor."@,
                        ),
                    ],
                ),
            ),
        ],
    )
}

fn command_status() -> (r: Json)
    ensures
        compact(r) == command_status_text(),
{
    reveal(command_status_text);
    let output_fields = vec![
        field_entry("name", "string"),
        field_entry("relays", "object[]"),
        field_entry("firmware", "string"),
        described(
            "energy",
            "object",
            "null when the device has no energy sensor.",
        ),
    ];
    assert(item_texts(output_fields@) =~= seq![
        compact(output_fields@[0]),
        compact(output_fields@[1]),
        compact(output_fields@[2]),
        compact(output_fields@[3]),
    ]);
    let status_members = vec![m("output_fields", array(output_fields))];
    assert(member_texts(status_members@) =~= seq![
        field(
            "output_fields"@,
            compact(status_members@[0].1),
        ),
    ]);
    command(
        "status",
        false,
        "stable",
        "Show full device status. Targets the device selected by the global --host/--name/--group/--all options.",
        status_members,
    )
}

/// The `on` entry of the `commands` list.
#[verifier::opaque]
pub open spec fn command_on_text() -> Seq<char> {
    command_text(
        "on"@,
        true,
        "stable"@,
        "Turn a relay on. Targets the device selected by the global --host/--name/--group/--all options."@,
        seq![
            field(
                "args"@,
                array_text(
                    seq![described_text("--relay"@, "integer"@, "Relay index (default: primary)."@)],
                ),
            ),
        ],
    )
}

fn command_on() -> (r: Json)
    ensures
        compact(r) == command_on_text(),
{
    reveal(command_on_text);
    let args = vec![described("--relay", "integer", "Relay index (default: primary).")];
    assert(item_texts(args@) =~= seq![compact(args@[0])]);
    let on_members = vec![m("args", array(args))];
    assert(member_texts(on_members@) =~= seq![field("args"@, compact(on_members@[0].1))]);
    command(
        "on",
        true,
        "stable",
        "Turn a relay on. Targets the device selected by the global --host/--name/--group/--all options.",
        on_members,
    )
}

/// The `off` entry of the `commands` list.
#[verifier::opaque]
pub open spec fn command_off_text() -> Seq<char> {
    command_text(
        "off"@,
        true,
        "stable"@,
        "Turn a relay off. Targets the device selected by the global --host/--name/--group/--all options."@,
        seq![
            field(
                "args"@,
                array_text(
                    seq![described_text("--relay"@, "integer"@, "Relay index (default: primary)."@)],
                ),
            ),
        ],
    )
}

fn command_off() -> (r: Json)
    ensures
        compact(r) == command_off_text(),
{
    reveal(command_off_text);
    let args = vec![described("--relay", "integer", "Relay index (default: primary).")];
    assert(item_texts(args@) =~= seq![compact(args@[0])]);
    let off_members = vec![m("args", array(args))];
    assert(member_texts(off_members@) =~= seq![field("args"@, compact(off_members@[0].1))]);
    command(
        "off",
        true,
        "stable",
        "Turn a relay off. Targets the device selected by the global --host/--name/--group/--all options.",
        off_members,
    )
}

/// The `toggle` entry of the `commands` list.
#[verifier::opaque]
pub open spec fn command_toggle_text() -> Seq<char> {
    command_text(
        "toggle"@,
        true,
        "stable"@,
        "Toggle a relay. Targets the device selected by the global --host/--name/--group/--all options."@,
        seq![
            field(
                "args"@,
                array_text(
                    seq![described_text("--relay"@, "integer"@, "Relay index (default: primary)."@)],
                ),
            ),
        ],
    )
}

fn command_toggle() -> (r: Json)
    ensures
        compact(r) == command_toggle_text(),
{
    reveal(command_toggle_text);
    let args = vec![described("--relay", "integer", "Relay index (default: primary).")];
    assert(item_texts(args@) =~= seq![compact(args@[0])]);
    let toggle_members = vec![m("args", array(args))];
    assert(member_texts(toggle_members@) =~= seq![field("args"@, compact(toggle_members@[0].1))]);
    command(
        "toggle",
        true,
        "stable",
        "Toggle a relay. Targets the device selected by the global --host/--name/--group/--all options.",
        toggle_members,
    )
}

/// The `switch` entry of the `commands` list.
#[verifier::opaque]
pub open spec fn command_switch_text() -> Seq<char> {
    command_text(
        "switch"@,
        true,
        "stable"@,
        "Set a relay to an explicit state. Targets the device selected by the global --host/--name/--group/--all options."@,
        seq![
            field(
                "args"@,
                array_text(
                    seq![
                        object_text(
                            seq![
                                field("name"@, quoted("state"@)),
                                field("type"@, quoted("string"@)),
                                field("required"@, "true"@),
                                field(
                                    "enum"@,
                                    array_text(
                                        seq![quoted("on"@), quoted("off"@), quoted("toggle"@)],
                                    ),
                                ),
                                field("description"@, quoted("Target relay state."@)),
                            ],
                        ),
                        described_text("--relay"@, "integer"@, "Relay index (default: primary)."@),
                    ],
                ),
            ),
        ],
    )
}

fn command_switch() -> (r: Json)
    ensures
        compact(r) == command_switch_text(),
{
    reveal(command_switch_text);
    let choices = vec![text("on"), text("off"), text("toggle")];
    assert(item_texts(choices@) =~= seq![
        compact(choices@[0]),
        compact(choices@[1]),
        compact(choices@[2]),
    ]);
    let state_arg = vec![
        m("name", text("state")),
        m("type", text("string")),
        m("required", Json::Bool(true)),
        m("enum", array(choices)),
        m("description", text("Target relay state.")),
    ];
    assert(member_texts(state_arg@) =~= seq![
        field("name"@, compact(state_arg@[0].1)),
        field("type"@, compact(state_arg@[1].1)),
        field("required"@, compact(state_arg@[2].1)),
        field("enum"@, compact(state_arg@[3].1)),
        field("description"@, compact(state_arg@[4].1)),
    ]);
    let args = vec![
        object(state_arg),
        described("--relay", "integer", "Relay index (default: primary)."),
    ];
    assert(item_texts(args@) =~= seq![compact(args@[0]), compact(args@[1])]);
    let switch_members = vec![m("args", array(args))];
    assert(member_texts(switch_members@) =~= seq![field("args"@, compact(switch_members@[0].1))]);
    command(
        "switch",
        true,
        "stable",
        "Set a relay to an explicit state. Targets the device selected by the global --host/--name/--group/--all options.",
        switch_members,
    )
}

/// The `power` entry of the `commands` list.
#[verifier::opaque]
pub open spec fn command_power_text() -> Seq<char> {
    command_text(
        "power"@,
        false,
        "stable"@,
        "Show instantaneous power (W). Targets the device selected by the global --host/--name/--group/--all options."@,
        seq![
            field(
                "output_fields"@,
                array_text(
                    seq![
                        described_text(
                            "power_w"@,
                            "number"@,
                            "null when the device has no energy sensor."@,
                        ),
                    ],
                ),
            ),
        ],
    )
}

fn command_power() -> (r: Json)
    ensures
        compact(r) == command_power_text(),
{
    reveal(command_power_text);
    let output_fields = vec![
        described(
            "power_w",
            "number",
            "null when the device has no energy sensor.",
        ),
    ];
    assert(item_texts(output_fields@) =~= seq![compact(output_fields@[0])]);
    let power_members = vec![m("output_fields", array(output_fields))];
    assert(member_texts(power_members@) =~= seq![
        field(
            "output_fields"@,
            compact(power_members@[0].1),
        ),
    ]);
    command(
        "power",
        false,
        "stable",
        "Show instantaneous power (W). Targets the device selected by the global --host/--name/--group/--all options.",
        power_members,
    )
}

/// The `energy` entry of the `commands` list.
#[verifier::opaque]
pub open spec fn command_energy_text() -> Seq<char> {
    command_text(
        "energy"@,
        false,
        "stable"@,
        "Show energy totals (kWh). Targets the device selected by the global --host/--name/--group/--all options."@,
        Seq::empty(),
    )
}

fn command_energy() -> (r: Json)
    ensures
        compact(r) == command_energy_text(),
{
    reveal(command_energy_text);
    plain(
        "energy",
        false,
        "stable",
        "Show energy totals (kWh). Targets the device selected by the global --host/--name/--group/--all options.",
    )
}

/// The `health` entry of the `commands` list.
#[verifier::opaque]
pub open spec fn command_health_text() -> Seq<char> {
    command_text(
        "health"@,
        false,
        "stable"@,
        "Show device health (online, RSSI, uptime, firmware, MQTT). Targets the device selected by the global --host/--name/--group/--all options."@,
        Seq::empty(),
    )
}

fn command_health() -> (r: Json)
    ensures
        compact(r) == command_health_text(),
{
    reveal(command_health_text);
    plain(
        "health",
        false,
        "stable",
        "Show device health (online, RSSI, uptime, firmware, MQTT). Targets the device selected by the global --host/--name/--group/--all options.",
    )
}

/// The `config` entry of the `commands` list.
#[verifier::opaque]
pub open spec fn command_config_text() -> Seq<char> {
    command_text(
        "config"@,
        false,
        "stable"@,
        "Read or write device settings."@,
        seq![
            field(
                "subcommands"@,
                array_text(
                    seq![
                        command_text(
                            "get"@,
                            false,
                            "stable"@,
                            "Read a setting."@,
                            seq![
                                field(
                                    "args"@,
                                    array_text(
                                        seq![
                                            object_text(
                                                seq![
                                                    field("name"@, quoted("setting"@)),
                                                    field("type"@, quoted("string"@)),
                                                    field("required"@, "true"@),
                                                    field(
                                                        "description"@,
                                                        quoted("Setting/command name."@),
                                                    ),
                                                ],
                                            ),
                                        ],
                                    ),
                                ),
                            ],
                        ),
                        command_text(
                            "set"@,
                            true,
                            "stable"@,
                            "Write a setting (guarded)."@,
                            seq![
                                field(
                                    "args"@,
                                    array_text(
                                        seq![
                                            object_text(
                                                seq![
                                                    field("name"@, quoted("setting"@)),
                                                    field("type"@, quoted("string"@)),
                                                    field("required"@, "true"@),
                                                ],
                                            ),
                                            object_text(
                                                seq![
                                                    field("name"@, quoted("value"@)),
                                                    field("type"@, quoted("string"@)),
                                                    field("required"@, "true"@),
                                                ],
                                            ),
                                        ],
                                    ),
                                ),
                            ],
                        ),
                    ],
                ),
            ),
        ],
    )
}

fn command_config() -> (r: Json)
    ensures
        compact(r) == command_config_text(),
{
    reveal(command_config_text);
    let setting_arg = vec![
        m("name", text("setting")),
        m("type", text("string")),
        m("required", Json::Bool(true)),
        m("description", text("Setting/command name.")),
    ];
    assert(member_texts(setting_arg@) =~= seq![
        field("name"@, compact(setting_arg@[0].1)),
        field("type"@, compact(setting_arg@[1].1)),
        field("required"@, compact(setting_arg@[2].1)),
        field("description"@, compact(setting_arg@[3].1)),
    ]);
    let args = vec![object(setting_arg)];
    assert(item_texts(args@) =~= seq![compact(args@[0])]);
    let get_members = vec![m("args", array(args))];
    assert(member_texts(get_members@) =~= seq![field("args"@, compact(get_members@[0].1))]);
    let setting_arg2 = vec![
        m("name", text("setting")),
        m("type", text("string")),
        m("required", Json::Bool(true)),
    ];
    assert(member_texts(setting_arg2@) =~= seq![
        field("name"@, compact(setting_arg2@[0].1)),
        field("type"@, compact(setting_arg2@[1].1)),
        field("required"@, compact(setting_arg2@[2].1)),
    ]);
    let value_arg = vec![
        m("name", text("value")),
        m("type", text("string")),
        m("required", Json::Bool(true)),
    ];
    assert(member_texts(value_arg@) =~= seq![
        field("name"@, compact(value_arg@[0].1)),
        field("type"@, compact(value_arg@[1].1)),
        field("required"@, compact(value_arg@[2].1)),
    ]);
    let args2 = vec![object(setting_arg2), object(value_arg)];
    assert(item_texts(args2@) =~= seq![compact(args2@[0]), compact(args2@[1])]);
    let set_members = vec![m("args", array(args2))];
    assert(member_texts(set_members@) =~= seq![field("args"@, compact(set_members@[0].1))]);
    let subcommands = vec![
        command("get", false, "stable", "Read a setting.", get_members),
        command("set", true, "stable", "Write a setting (guarded).", set_members),
    ];
    assert(item_texts(subcommands@) =~= seq![compact(subcommands@[0]), compact(subcommands@[1])]);
    let config_members = vec![m("subcommands", array(subcommands))];
    assert(member_texts(config_members@) =~= seq![
        field(
            "subcommands"@,
            compact(config_members@[0].1),
        ),
    ]);
    command("config", false, "stable", "Read or write device settings.", config_members)
}

/// The `backup` entry of the `commands` list.
#[verifier::opaque]
pub open spec fn command_backup_text() -> Seq<char> {
    command_text(
        "backup"@,
        true,
        "stable"@,
        "Download the device config backup (.dmp) and write it to a local file."@,
        seq![
            field(
                "args"@,
                array_text(
                    seq![described_text("--out"@, "path"@, "Output file (default: <name>.dmp)."@)],
                ),
            ),
        ],
    )
}

fn command_backup() -> (r: Json)
    ensures
        compact(r) == command_backup_text(),
{
    reveal(command_backup_text);
    let args = vec![described("--out", "path", "Output file (default: <name>.dmp).")];
    assert(item_texts(args@) =~= seq![compact(args@[0])]);
    let backup_members = vec![m("args", array(args))];
    assert(member_texts(backup_members@) =~= seq![field("args"@, compact(backup_members@[0].1))]);
    command(
        "backup",
        true,
        "stable",
        "Download the device config backup (.dmp) and write it to a local file.",
        backup_members,
    )
}

/// The `restore` entry of the `commands` list.
#[verifier::opaque]
pub open spec fn command_restore_text() -> Seq<char> {
    command_text(
        "restore"@,
        true,
        "experimental"@,
        "Restore a config backup (.dmp). Guarded; upload endpoint is unverified."@,
        seq![
            field(
                "args"@,
                array_text(
                    seq![
                        object_text(
                            seq![
                                field("name"@, quoted("file"@)),
                                field("type"@, quoted("path"@)),
                                field("required"@, "true"@),
                            ],
                        ),
                    ],
                ),
            ),
        ],
    )
}

fn command_restore() -> (r: Json)
    ensures
        compact(r) == command_restore_text(),
{
    reveal(command_restore_text);
    let file_arg = vec![
        m("name", text("file")),
        m("type", text("path")),
        m("required", Json::Bool(true)),
    ];
    assert(member_texts(file_arg@) =~= seq![
        field("name"@, compact(file_arg@[0].1)),
        field("type"@, compact(file_arg@[1].1)),
        field("required"@, compact(file_arg@[2].1)),
    ]);
    let args = vec![object(file_arg)];
    assert(item_texts(args@) =~= seq![compact(args@[0])]);
    let restore_members = vec![m("args", array(args))];
    assert(member_texts(restore_members@) =~= seq![field("args"@, compact(restore_members@[0].1))]);
    command(
        "restore",
        true,
        "experimental",
        "Restore a config backup (.dmp). Guarded; upload endpoint is unverified.",
        restore_members,
    )
}

/// The `firmware` entry of the `commands` list.
#[verifier::opaque]
pub open spec fn command_firmware_text() -> Seq<char> {
    command_text(
        "firmware"@,
        false,
        "stable"@,
        "Check or update firmware."@,
        seq![
            field(
                "subcommands"@,
                array_text(
                    seq![
                        command_text(
                            "check"@,
                            false,
                            "stable"@,
                            "Show the installed firmware version."@,
                            Seq::empty(),
                        ),
                        command_text(
                            "update"@,
                            true,
                            "stable"@,
                            "Trigger an OTA firmware upgrade (guarded, can brick)."@,
                            seq![
                                field(
                                    "args"@,
                                    array_text(
                                        seq![
                                            described_text(
                                                "--url"@,
                                                "string"@,
                                                "OTA URL to flash from."@,
                                            ),
                                        ],
                                    ),
                                ),
                            ],
                        ),
                    ],
                ),
            ),
        ],
    )
}

fn command_firmware() -> (r: Json)
    ensures
        compact(r) == command_firmware_text(),
{
    reveal(command_firmware_text);
    let args = vec![described("--url", "string", "OTA URL to flash from.")];
    assert(item_texts(args@) =~= seq![compact(args@[0])]);
    let update_members = vec![m("args", array(args))];
    assert(member_texts(update_members@) =~= seq![field("args"@, compact(update_members@[0].1))]);
    let subcommands = vec![
        plain("check", false, "stable", "Show the installed firmware version."),
        command(
            "update",
            true,
            "stable",
            "Trigger an OTA firmware upgrade (guarded, can brick).",
            update_members,
        ),
    ];
    assert(item_texts(subcommands@) =~= seq![compact(subcommands@[0]), compact(subcommands@[1])]);
    let firmware_members = vec![m("subcommands", array(subcommands))];
    assert(member_texts(firmware_members@) =~= seq![
        field(
            "subcommands"@,
            compact(firmware_members@[0].1),
        ),
    ]);
    command("firmware", false, "stable", "Check or update firmware.", firmware_members)
}

/// The `console` entry of the `commands` list.
#[verifier::opaque]
pub open spec fn command_console_text() -> Seq<char> {
    command_text(
        "console"@,
        true,
        "stable"@,
        "Send an arbitrary command or Backlog. Destructive (sub)commands are guarded."@,
        seq![
            field(
                "args"@,
                array_text(
                    seq![
                        object_text(
                            seq![
                                field("name"@, quoted("command"@)),
                                field("type"@, quoted("string"@)),
                                field("required"@, "true"@),
                                field("description"@, quoted("The Tasmota command to send."@)),
                            ],
                        ),
                    ],
                ),
            ),
        ],
    )
}

fn command_console() -> (r: Json)
    ensures
        compact(r) == command_console_text(),
{
    reveal(command_console_text);
    let command_arg = vec![
        m("name", text("command")),
        m("type", text("string")),
        m("required", Json::Bool(true)),
        m("description", text("The Tasmota command to send.")),
    ];
    assert(member_texts(command_arg@) =~= seq![
        field("name"@, compact(command_arg@[0].1)),
        field("type"@, compact(command_arg@[1].1)),
        field("required"@, compact(command_arg@[2].1)),
        field("description"@, compact(command_arg@[3].1)),
    ]);
    let args = vec![object(command_arg)];
    assert(item_texts(args@) =~= seq![compact(args@[0])]);
    let console_members = vec![m("args", array(args))];
    assert(member_texts(console_members@) =~= seq![field("args"@, compact(console_members@[0].1))]);
    command(
        "console",
        true,
        "stable",
        "Send an arbitrary command or Backlog. Destructive (sub)commands are guarded.",
        console_members,
    )
}

/// The `template` entry of the `commands` list.
#[verifier::opaque]
pub open spec fn command_template_text() -> Seq<char> {
    command_text(
        "template"@,
        false,
        "stable"@,
        "Read or apply a GPIO template."@,
        seq![
            field(
                "subcommands"@,
                array_text(
                    seq![
                        command_text(
                            "get"@,
                            false,
                            "stable"@,
                            "Show the current template."@,
                            Seq::empty(),
                        ),
                        command_text(
                            "apply"@,
                            true,
                            "stable"@,
                            "Apply a template and activate it (guarded)."@,
                            seq![
                                field(
                                    "args"@,
                                    array_text(
                                        seq![
                                            object_text(
                                                seq![
                                                    field("name"@, quoted("json"@)),
                                                    field("type"@, quoted("string"@)),
                                                    field("required"@, "true"@),
                                                    field("description"@, quoted("Template JSON."@)),
                                                ],
                                            ),
                                        ],
                                    ),
                                ),
                            ],
                        ),
                    ],
                ),
            ),
        ],
    )
}

fn command_template() -> (r: Json)
    ensures
        compact(r) == command_template_text(),
{
    reveal(command_template_text);
    let json_arg = vec![
        m("name", text("json")),
        m("type", text("string")),
        m("required", Json::Bool(true)),
        m("description", text("Template JSON.")),
    ];
    assert(member_texts(json_arg@) =~= seq![
        field("name"@, compact(json_arg@[0].1)),
        field("type"@, compact(json_arg@[1].1)),
        field("required"@, compact(json_arg@[2].1)),
        field("description"@, compact(json_arg@[3].1)),
    ]);
    let args = vec![object(json_arg)];
    assert(item_texts(args@) =~= seq![compact(args@[0])]);
    let apply_members = vec![m("args", array(args))];
    assert(member_texts(apply_members@) =~= seq![field("args"@, compact(apply_members@[0].1))]);
    let subcommands = vec![
        plain("get", false, "stable", "Show the current template."),
        command(
            "apply",
            true,
            "stable",
            "Apply a template and activate it (guarded).",
            apply_members,
        ),
    ];
    assert(item_texts(subcommands@) =~= seq![compact(subcommands@[0]), compact(subcommands@[1])]);
    let template_members = vec![m("subcommands", array(subcommands))];
    assert(member_texts(template_members@) =~= seq![
        field(
            "subcommands"@,
            compact(template_members@[0].1),
        ),
    ]);
    command("template", false, "stable", "Read or apply a GPIO template.", template_members)
}

/// The `group` entry of the `commands` list.
#[verifier::opaque]
pub open spec fn command_group_text() -> Seq<char> {
    command_text(
        "group"@,
        false,
        "stable"@,
        "List device groups defined in groups.toml."@,
        seq![
            field(
                "subcommands"@,
                array_text(
                    seq![
                        command_text(
                            "list"@,
                            false,
                            "stable"@,
                            "List groups and members."@,
                            Seq::empty(),
                        ),
                    ],
                ),
            ),
        ],
    )
}

fn command_group() -> (r: Json)
    ensures
        compact(r) == command_group_text(),
{
    reveal(command_group_text);
    let subcommands = vec![plain("list", false, "stable", "List groups and members.")];
    assert(item_texts(subcommands@) =~= seq![compact(subcommands@[0])]);
    let group_members = vec![m("subcommands", array(subcommands))];
    assert(member_texts(group_members@) =~= seq![
        field("subcommands"@, compact(group_members@[0].1)),
    ]);
    command("group", false, "stable", "List device groups defined in groups.toml.", group_members)
}

/// The `watch` entry of the `commands` list.
#[verifier::opaque]
pub open spec fn command_watch_text() -> Seq<char> {
    command_text(
        "watch"@,
        false,
        "beta"@,
        "Live-updating dashboard of targeted devices."@,
        seq![
            field(
                "args"@,
                array_text(
                    seq![
                        defaulted_text(
                            "--interval"@,
                            "integer"@,
                            "2"@,
                            "Refresh interval (seconds)."@,
                        ),
                    ],
                ),
            ),
        ],
    )
}

fn command_watch() -> (r: Json)
    ensures
        compact(r) == command_watch_text(),
{
    reveal(command_watch_text);
    let args = vec![defaulted("--interval", "integer", number("2"), "Refresh interval (seconds).")];
    assert(item_texts(args@) =~= seq![compact(args@[0])]);
    let watch_members = vec![m("args", array(args))];
    assert(member_texts(watch_members@) =~= seq![field("args"@, compact(watch_members@[0].1))]);
    command("watch", false, "beta", "Live-updating dashboard of targeted devices.", watch_members)
}

/// The `completions` entry of the `commands` list.
#[verifier::opaque]
pub open spec fn command_completions_text() -> Seq<char> {
    command_text(
        "completions"@,
        false,
        "stable"@,
        "Generate a shell completion script."@,
        seq![
            field(
                "args"@,
                array_text(
                    seq![
                        object_text(
                            seq![
                                field("name"@, quoted("shell"@)),
                                field("type"@, quoted("string"@)),
                                field("required"@, "true"@),
                                field(
                                    "enum"@,
                                    array_text(
                                        seq![
                                            quoted("bash"@),
                                            quoted("zsh"@),
                                            quoted("fish"@),
                                            quoted("powershell"@),
                                            quoted("elvish"@),
                                        ],
                                    ),
                                ),
                            ],
                        ),
                    ],
                ),
            ),
        ],
    )
}

fn command_completions() -> (r: Json)
    ensures
        compact(r) == command_completions_text(),
{
    reveal(command_completions_text);
    let choices = vec![text("bash"), text("zsh"), text("fish"), text("powershell"), text("elvish")];
    assert(item_texts(choices@) =~= seq![
        compact(choices@[0]),
        compact(choices@[1]),
        compact(choices@[2]),
        compact(choices@[3]),
        compact(choices@[4]),
    ]);
    let shell_arg = vec![
        m("name", text("shell")),
        m("type", text("string")),
        m("required", Json::Bool(true)),
        m("enum", array(choices)),
    ];
    assert(member_texts(shell_arg@) =~= seq![
        field("name"@, compact(shell_arg@[0].1)),
        field("type"@, compact(shell_arg@[1].1)),
        field("required"@, compact(shell_arg@[2].1)),
        field("enum"@, compact(shell_arg@[3].1)),
    ]);
    let args = vec![object(shell_arg)];
    assert(item_texts(args@) =~= seq![compact(args@[0])]);
    let completions_members = vec![m("args", array(args))];
    assert(member_texts(completions_members@) =~= seq![
        field(
            "args"@,
            compact(completions_members@[0].1),
        ),
    ]);
    command(
        "completions",
        false,
        "stable",
        "Generate a shell completion script.",
        completions_members,
    )
}

/// The `schema` entry of the `commands` list.
#[verifier::opaque]
pub open spec fn command_schema_text() -> Seq<char> {
    command_text("schema"@, false, "stable"@, "Print this clispec contract as JSON."@, Seq::empty())
}

fn command_schema() -> (r: Json)
    ensures
        compact(r) == command_schema_text(),
{
    reveal(command_schema_text);
    plain("schema", false, "stable", "Print this clispec contract as JSON.")
}

/// The `commands` list: every command with its arguments, output fields and
/// subcommands, each marked `mutating` when it changes a device.
#[verifier::opaque]
pub open spec fn commands_text() -> Seq<char> {
    array_text(seq![
        command_discover_text(),
        command_devices_text(),
        command_status_text(),
        command_on_text(),
        command_off_text(),
        command_toggle_text(),
        command_switch_text(),
        command_power_text(),
        command_energy_text(),
        command_health_text(),
        command_config_text(),
        command_backup_text(),
        command_restore_text(),
        command_firmware_text(),
        command_console_text(),
        command_template_text(),
        command_group_text(),
        command_watch_text(),
        command_completions_text(),
        command_schema_text(),
    ])
}

#[verifier::spinoff_prover]
fn commands() -> (r: Json)
    ensures
        compact(r) == commands_text(),
{
    reveal(commands_text);
    let items = vec![
        command_discover(),
        command_devices(),
        command_status(),
        command_on(),
        command_off(),
        command_toggle(),
        command_switch(),
        command_power(),
        command_energy(),
        command_health(),
        command_config(),
        command_backup(),
        command_restore(),
        command_firmware(),
        command_console(),
        command_template(),
        command_group(),
        command_watch(),
        command_completions(),
        command_schema(),
    ];
    assert(item_texts(items@) =~= seq![
        compact(items@[0]),
        compact(items@[1]),
        compact(items@[2]),
        compact(items@[3]),
        compact(items@[4]),
        compact(items@[5]),
        compact(items@[6]),
        compact(items@[7]),
        compact(items@[8]),
        compact(items@[9]),
        compact(items@[10]),
        compact(items@[11]),
        compact(items@[12]),
        compact(items@[13]),
        compact(items@[14]),
        compact(items@[15]),
        compact(items@[16]),
        compact(items@[17]),
        compact(items@[18]),
        compact(items@[19]),
    ]);
    array(items)
}
/// One entry of the `errors` table: the kind, its exit code, whether retrying can
/// help, and a description.
#[verifier::opaque]
pub open spec fn error_entry_text(e: ErrorView, retryable: bool, description: Seq<char>) -> Seq<
    char,
> {
    object_text(
        seq![
            field("kind"@, quoted(kind_name(e))),
            field("exit_code"@, dec_int(exit_code_of(e) as int)),
            field("retryable"@, bool_text(retryable)),
            field("description"@, quoted(description)),
        ],
    )
}

/// The `errors` table: every error kind, in the order of [`declared_errors`].
#[verifier::opaque]
pub open spec fn errors_text() -> Seq<char> {
    let d = declared_errors();
    array_text(
        seq![
            error_entry_text(d[0], false, "Invalid command-line arguments."@),
            error_entry_text(d[1], false, "Targeted device name not in the cache."@),
            error_entry_text(
                d[2],
                false,
                "Device required authentication we lacked or that was rejected."@,
            ),
            error_entry_text(d[3], true, "Device unreachable or transport failed."@),
            error_entry_text(
                d[4],
                false,
                "Device returned HTTP 200 but rejected the command in its JSON body."@,
            ),
            error_entry_text(d[5], false, "Device response was not in the expected shape."@),
            error_entry_text(d[6], false, "A local file operation failed."@),
            error_entry_text(
                d[7],
                false,
                "The requested datum is not available from the device (never coerced to 0)."@,
            ),
            error_entry_text(d[8], false, "User declined a confirmation prompt."@),
        ],
    )
}

/// One entry of the `errors` table, for the kind of `e`.
fn error_entry_json(e: &Error, retryable: bool, description: &str) -> (r: Json)
    ensures
        error_entry(r) == declared_entry(e@),
        compact(r) == error_entry_text(e@, retryable, description@),
{
    reveal(error_entry_text);
    let es = vec![
        m("kind", Json::Str(String::from_str(e.kind()))),
        m("exit_code", Json::Number(dec_int_string(e.exit_code() as i64))),
        m("retryable", Json::Bool(retryable)),
        m("description", text(description)),
    ];
    assert(member_texts(es@) =~= seq![
        field("kind"@, quoted(kind_name(e@))),
        field("exit_code"@, dec_int(exit_code_of(e@) as int)),
        field("retryable"@, bool_text(retryable)),
        field("description"@, quoted(description@)),
    ]);
    proof {
        reveal_strlit("kind");
        reveal_strlit("exit_code");
        assert(es@[0].0@.len() != "exit_code"@.len());
        lemma_find_key_at(es@, "kind"@, 0);
        lemma_find_key_at(es@, "exit_code"@, 1);
    }
    object(es)
}

#[verifier::spinoff_prover]
fn errors() -> (r: Json)
    ensures
        r matches Json::Array(v) && v@.map_values(|j: Json| error_entry(j))
            == declared_errors().map_values(|e: ErrorView| declared_entry(e)),
        compact(r) == errors_text(),
{
    reveal(errors_text);
    let items = vec![
        error_entry_json(
            &Error::Usage { message: String::new() },
            false,
            "Invalid command-line arguments.",
        ),
        error_entry_json(
            &Error::NotFound { message: String::new() },
            false,
            "Targeted device name not in the cache.",
        ),
        error_entry_json(
            &Error::Auth { message: String::new() },
            false,
            "Device required authentication we lacked or that was rejected.",
        ),
        error_entry_json(
            &Error::Network { message: String::new() },
            true,
            "Device unreachable or transport failed.",
        ),
        error_entry_json(
            &Error::CommandRejected { command: String::new(), message: String::new() },
            false,
            "Device returned HTTP 200 but rejected the command in its JSON body.",
        ),
        error_entry_json(
            &Error::Parse { message: String::new() },
            false,
            "Device response was not in the expected shape.",
        ),
        error_entry_json(
            &Error::Io { message: String::new() },
            false,
            "A local file operation failed.",
        ),
        error_entry_json(
            &Error::Unavailable { message: String::new() },
            false,
            "The requested datum is not available from the device (never coerced to 0).",
        ),
        error_entry_json(
            &Error::Aborted { message: String::new() },
            false,
            "User declined a confirmation prompt.",
        ),
    ];
    assert(items@.map_values(|j: Json| error_entry(j)) =~= declared_errors().map_values(
        |e: ErrorView| declared_entry(e),
    ));
    proof {
        reveal(error_entry_text);
    }
    assert(item_texts(items@) =~= seq![
        compact(items@[0]),
        compact(items@[1]),
        compact(items@[2]),
        compact(items@[3]),
        compact(items@[4]),
        compact(items@[5]),
        compact(items@[6]),
        compact(items@[7]),
        compact(items@[8]),
    ]);
    array(items)
}

/// The whole contract, as compact JSON text.
pub open spec fn contract_text() -> Seq<char> {
    object_text(
        seq![
            field("clispec"@, quoted("0.2"@)),
            field("name"@, quoted("tasmota"@)),
            field("version"@, quoted("0.2.0"@)),
            field(
                "description"@,
                quoted("Unofficial CLI for managing Tasmota smart devices over HTTP."@),
            ),
            field("global_args"@, global_args_text()),
            field("commands"@, commands_text()),
            field("errors"@, errors_text()),
        ],
    )
}

/// The clispec contract of the tool, exactly [`contract_text`]: `clispec` is `"0.2"`,
/// `name` is `"tasmota"`, `global_args` and `commands` are [`global_args_text`] and
/// [`commands_text`], and the `errors` table declares every error kind with its exit
/// code, in the order of [`declared_errors`].
pub fn contract() -> (r: Json)
    ensures
        compact(r) == contract_text(),
        ostr(jget(r, "clispec"@)) == Some("0.2"@),
        ostr(jget(r, "name"@)) == Some("tasmota"@),
        jget(r, "global_args"@) matches Some(g) && compact(g) == global_args_text(),
        jget(r, "commands"@) matches Some(c) && compact(c) == commands_text(),
        error_entries(r) == declared_errors().map_values(|e: ErrorView| declared_entry(e)),
{
    let es = vec![
        m("clispec", text("0.2")),
        m("name", text("tasmota")),
        m("version", text("0.2.0")),
        m("description", text("Unofficial CLI for managing Tasmota smart devices over HTTP.")),
        m("global_args", global_args()),
        m("commands", commands()),
        m("errors", errors()),
    ];
    assert(member_texts(es@) =~= seq![
        field("clispec"@, compact(es@[0].1)),
        field("name"@, compact(es@[1].1)),
        field("version"@, compact(es@[2].1)),
        field("description"@, compact(es@[3].1)),
        field("global_args"@, compact(es@[4].1)),
        field("commands"@, compact(es@[5].1)),
        field("errors"@, compact(es@[6].1)),
    ]);
    proof {
        reveal_strlit("clispec");
        reveal_strlit("name");
        reveal_strlit("version");
        reveal_strlit("description");
        reveal_strlit("global_args");
        reveal_strlit("commands");
        reveal_strlit("errors");
        assert(forall|j: int| 0 <= j < 6 ==> (#[trigger] es@[j]).0@.len() != "errors"@.len());
        assert(forall|j: int| 0 <= j < 5 ==> (#[trigger] es@[j]).0@.len() != "commands"@.len());
        assert(forall|j: int| 0 <= j < 3 ==> (#[trigger] es@[j]).0@.len() != "global_args"@.len());
        assert(es@[3].0@[0] != "global_args"@[0]);
        assert(es@[0].0@.len() != "name"@.len());
        lemma_find_key_at(es@, "clispec"@, 0);
        lemma_find_key_at(es@, "name"@, 1);
        lemma_find_key_at(es@, "global_args"@, 4);
        lemma_find_key_at(es@, "commands"@, 5);
        lemma_find_key_at(es@, "errors"@, 6);
    }
    object(es)
}

/// Every error the library can report is declared in the contract, with the exit code
/// the tool exits with.
pub proof fn every_error_kind_is_declared(e: Error)
    ensures
        exists|i: int|
            0 <= i < declared_errors().len() && #[trigger] declared_entry(declared_errors()[i])
                == declared_entry(e@),
{
    let d = declared_errors();
    match e@ {
        ErrorView::Usage(_) => assert(declared_entry(d[0]) == declared_entry(e@)),
        ErrorView::NotFound(_) => assert(declared_entry(d[1]) == declared_entry(e@)),
        ErrorView::Auth(_) => assert(declared_entry(d[2]) == declared_entry(e@)),
        ErrorView::Network(_) => assert(declared_entry(d[3]) == declared_entry(e@)),
        ErrorView::CommandRejected(_, _) => assert(declared_entry(d[4]) == declared_entry(e@)),
        ErrorView::Parse(_) => assert(declared_entry(d[5]) == declared_entry(e@)),
        ErrorView::Io(_) => assert(declared_entry(d[6]) == declared_entry(e@)),
        ErrorView::Unavailable(_) => assert(declared_entry(d[7]) == declared_entry(e@)),
        ErrorView::Aborted(_) => assert(declared_entry(d[8]) == declared_entry(e@)),
    }
}

} // verus!
