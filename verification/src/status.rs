//! The status payload parser: from a JSON document to a structured status
//! result, failing closed on any shape violation.

use vstd::prelude::*;
use vstd::string::*;
use crate::json::{JsonVal, json_of, obj_get, json_obj_get, parse_json_bytes};

verus! {

/// The server's description: either a bare JSON string, or an object whose
/// `text` member carries the string.
pub enum ServerDescription {
    Plain(String),
    Object(String),
}

/// One entry of the player sample.
pub struct PlayerSample {
    pub name: String,
    pub id: String,
}

/// Player counts, and the optional sample list. An absent sample is kept
/// distinct from an empty one.
pub struct PlayerInfo {
    pub online: i64,
    pub max: i64,
    pub sample: Option<Vec<PlayerSample>>,
}

/// The server version block.
pub struct VersionInfo {
    pub name: String,
    pub protocol: i64,
}

/// A fully parsed status payload.
pub struct StatusResult {
    pub description: ServerDescription,
    pub players: PlayerInfo,
    pub version: VersionInfo,
}

/// Shape violations of the status payload. `InvalidJson`: the bytes are not
/// a JSON document at all. `MissingField`: a required member is absent.
/// `MalformedField`: a member is present with the wrong shape.
/// `MalformedDescription`: the description is neither a string nor an
/// object with a string `text` member.
#[derive(Clone, Copy, Debug, PartialEq, Eq, Structural)]
pub enum StatusError {
    InvalidJson,
    MalformedDescription,
    MissingField,
    MalformedField,
}

/// The description as a sequence of characters.
pub enum DescriptionView {
    Plain(Seq<char>),
    Object(Seq<char>),
}

/// The mathematical content of a [`StatusResult`].
pub struct StatusView {
    pub description: DescriptionView,
    pub online: int,
    pub max: int,
    pub sample: Option<Seq<(Seq<char>, Seq<char>)>>,
    pub version_name: Seq<char>,
    pub protocol: int,
}

pub open spec fn desc_view(d: ServerDescription) -> DescriptionView {
    match d {
        ServerDescription::Plain(s) => DescriptionView::Plain(s@),
        ServerDescription::Object(s) => DescriptionView::Object(s@),
    }
}

pub open spec fn sample_view_seq(s: Seq<PlayerSample>) -> Seq<(Seq<char>, Seq<char>)> {
    s.map(|j: int, p: PlayerSample| (p.name@, p.id@))
}

pub open spec fn players_sample_view(s: Option<Vec<PlayerSample>>) -> Option<
    Seq<(Seq<char>, Seq<char>)>,
> {
    match s {
        Option::None => Option::None,
        Option::Some(v) => Option::Some(sample_view_seq(v@)),
    }
}

pub open spec fn status_view(s: StatusResult) -> StatusView {
    StatusView {
        description: desc_view(s.description),
        online: s.players.online as int,
        max: s.players.max as int,
        sample: players_sample_view(s.players.sample),
        version_name: s.version.name@,
        protocol: s.version.protocol as int,
    }
}

/// What the description member must parse to: a string is `Plain`; an
/// object must hold a string under `text`; anything else is malformed.
pub open spec fn spec_description_of(v: JsonVal) -> Result<DescriptionView, StatusError> {
    match v {
        JsonVal::Str(s) => Ok(DescriptionView::Plain(s@)),
        JsonVal::Obj(entries) => match obj_get(entries@, "text"@) {
            Option::Some(JsonVal::Str(t)) => Ok(DescriptionView::Object(t@)),
            _ => Err(StatusError::MalformedDescription),
        },
        _ => Err(StatusError::MalformedDescription),
    }
}

/// What one sample entry must parse to: an object with string members
/// `name` and `id`.
pub open spec fn spec_entry_of(v: JsonVal) -> Result<(Seq<char>, Seq<char>), StatusError> {
    match v {
        JsonVal::Obj(entries) => match (obj_get(entries@, "name"@), obj_get(entries@, "id"@)) {
            (Option::Some(JsonVal::Str(n)), Option::Some(JsonVal::Str(i))) => Ok((n@, i@)),
            _ => Err(StatusError::MalformedField),
        },
        _ => Err(StatusError::MalformedField),
    }
}

/// The whole sample array, or the error of its first bad entry.
pub open spec fn spec_sample_of(items: Seq<JsonVal>) -> Result<
    Seq<(Seq<char>, Seq<char>)>,
    StatusError,
>
    decreases items.len(),
{
    if items.len() == 0 {
        Ok(Seq::empty())
    } else {
        match spec_entry_of(items[0]) {
            Err(e) => Err(e),
            Ok(p) => match spec_sample_of(items.skip(1)) {
                Err(e) => Err(e),
                Ok(rest) => Ok(seq![p] + rest),
            },
        }
    }
}

/// The players member: required integers `online` and `max`, and the
/// optional `sample` array. A missing member wins over a malformed one.
pub open spec fn spec_players_of(v: JsonVal) -> Result<
    (int, int, Option<Seq<(Seq<char>, Seq<char>)>>),
    StatusError,
> {
    match v {
        JsonVal::Obj(entries) => match (obj_get(entries@, "online"@), obj_get(entries@, "max"@)) {
            (Option::Some(JsonVal::Int(o)), Option::Some(JsonVal::Int(m))) => match obj_get(
                entries@,
                "sample"@,
            ) {
                Option::None => Ok((o as int, m as int, Option::None)),
                Option::Some(JsonVal::Arr(items)) => match spec_sample_of(items@) {
                    Ok(s) => Ok((o as int, m as int, Option::Some(s))),
                    Err(e) => Err(e),
                },
                Option::Some(_) => Err(StatusError::MalformedField),
            },
            (Option::None, _) => Err(StatusError::MissingField),
            (_, Option::None) => Err(StatusError::MissingField),
            _ => Err(StatusError::MalformedField),
        },
        _ => Err(StatusError::MissingField),
    }
}

/// The version member: required string `name` and integer `protocol`.
pub open spec fn spec_version_of(v: JsonVal) -> Result<(Seq<char>, int), StatusError> {
    match v {
        JsonVal::Obj(entries) => match (
            obj_get(entries@, "name"@),
            obj_get(entries@, "protocol"@),
        ) {
            (Option::Some(JsonVal::Str(n)), Option::Some(JsonVal::Int(p))) => Ok((n@, p as int)),
            (Option::None, _) => Err(StatusError::MissingField),
            (_, Option::None) => Err(StatusError::MissingField),
            _ => Err(StatusError::MalformedField),
        },
        _ => Err(StatusError::MissingField),
    }
}

/// The whole status document: an object with `description`, `players` and
/// `version`, each of the shape above.
pub open spec fn spec_status_of(v: JsonVal) -> Result<StatusView, StatusError> {
    match v {
        JsonVal::Obj(entries) => match obj_get(entries@, "description"@) {
            Option::None => Err(StatusError::MissingField),
            Option::Some(d) => match spec_description_of(d) {
                Err(e) => Err(e),
                Ok(dv) => match obj_get(entries@, "players"@) {
                    Option::None => Err(StatusError::MissingField),
                    Option::Some(p) => match spec_players_of(p) {
                        Err(e) => Err(e),
                        Ok(pl) => match obj_get(entries@, "version"@) {
                            Option::None => Err(StatusError::MissingField),
                            Option::Some(w) => match spec_version_of(w) {
                                Err(e) => Err(e),
                                Ok(ver) => Ok(
                                    (StatusView {
                                        description: dv,
                                        online: pl.0,
                                        max: pl.1,
                                        sample: pl.2,
                                        version_name: ver.0,
                                        protocol: ver.1,
                                    }),
                                ),
                            },
                        },
                    },
                },
            },
        },
        _ => Err(StatusError::MissingField),
    }
}

impl JsonVal {
    /// The string payload, if this is a JSON string.
    pub fn as_str_val(&self) -> (r: Option<&String>)
        ensures
            (match r {
                Option::Some(s) => *self matches JsonVal::Str(t) && t == *s,
                Option::None => !(*self matches JsonVal::Str(_)),
            }),
    {
        match self {
            JsonVal::Str(s) => Some(s),
            _ => None,
        }
    }

    /// The integer payload, if this is a JSON integer.
    pub fn as_int_val(&self) -> (r: Option<i64>)
        ensures
            (match r {
                Option::Some(i) => *self matches JsonVal::Int(j) && j == i,
                Option::None => !(*self matches JsonVal::Int(_)),
            }),
    {
        match self {
            JsonVal::Int(i) => Some(*i),
            _ => None,
        }
    }
}

/// Parses the description member.
pub fn parse_description(v: &JsonVal) -> (r: Result<ServerDescription, StatusError>)
    ensures
        (match r {
            Ok(d) => spec_description_of(*v) == Ok::<DescriptionView, StatusError>(desc_view(d)),
            Err(e) => spec_description_of(*v) == Err::<DescriptionView, StatusError>(e),
        }),
{
    match v {
        JsonVal::Str(s) => Ok(ServerDescription::Plain(s.clone())),
        JsonVal::Obj(entries) => match json_obj_get(entries, "text") {
            Some(w) => match w.as_str_val() {
                Some(t) => Ok(ServerDescription::Object(t.clone())),
                None => Err(StatusError::MalformedDescription),
            },
            None => Err(StatusError::MalformedDescription),
        },
        _ => Err(StatusError::MalformedDescription),
    }
}

/// Parses one sample entry.
pub fn parse_entry(v: &JsonVal) -> (r: Result<PlayerSample, StatusError>)
    ensures
        (match r {
            Ok(p) => spec_entry_of(*v) == Ok::<(Seq<char>, Seq<char>), StatusError>((
                p.name@,
                p.id@,
            )),
            Err(e) => spec_entry_of(*v) == Err::<(Seq<char>, Seq<char>), StatusError>(e),
        }),
{
    match v {
        JsonVal::Obj(entries) => {
            let nw = json_obj_get(entries, "name");
            let iw = json_obj_get(entries, "id");
            match (nw, iw) {
                (Some(n), Some(idv)) => match (n.as_str_val(), idv.as_str_val()) {
                    (Some(ns), Some(ids)) => Ok(
                        (PlayerSample { name: ns.clone(), id: ids.clone() }),
                    ),
                    _ => Err(StatusError::MalformedField),
                },
                _ => Err(StatusError::MalformedField),
            }
        },
        _ => Err(StatusError::MalformedField),
    }
}

/// Parses the sample entries from position `i` on.
pub fn parse_sample(items: &Vec<JsonVal>, i: usize) -> (r: Result<Vec<PlayerSample>, StatusError>)
    requires
        i <= items@.len(),
    ensures
        (match r {
            Ok(v) => spec_sample_of(items@.skip(i as int)) == Ok::<
                Seq<(Seq<char>, Seq<char>)>,
                StatusError,
            >(sample_view_seq(v@)),
            Err(e) => spec_sample_of(items@.skip(i as int)) == Err::<
                Seq<(Seq<char>, Seq<char>)>,
                StatusError,
            >(e),
        }),
    decreases items@.len() - i,
{
    if i == items.len() {
        proof {
            assert(items@.skip(i as int).len() == 0);
            assert(sample_view_seq(Seq::empty()) =~= Seq::<(Seq<char>, Seq<char>)>::empty());
        }
        Ok(Vec::new())
    } else {
        proof {
            assert(items@.skip(i as int)[0] == items@[i as int]);
            assert(items@.skip(i as int).skip(1) =~= items@.skip(i as int + 1));
        }
        match parse_entry(&items[i]) {
            Err(e) => Err(e),
            Ok(p) => match parse_sample(items, i + 1) {
                Err(e) => Err(e),
                Ok(rest) => {
                    let ghost rest0 = rest@;
                    let mut rest = rest;
                    rest.insert(0, p);
                    proof {
                        assert(sample_view_seq(rest@) =~= seq![(p.name@, p.id@)] + sample_view_seq(
                            rest0,
                        ));
                    }
                    Ok(rest)
                },
            },
        }
    }
}

/// Parses the players member.
pub fn parse_players(v: &JsonVal) -> (r: Result<PlayerInfo, StatusError>)
    ensures
        (match r {
            Ok(p) => spec_players_of(*v) == Ok::<
                (int, int, Option<Seq<(Seq<char>, Seq<char>)>>),
                StatusError,
            >((p.online as int, p.max as int, players_sample_view(p.sample))),
            Err(e) => spec_players_of(*v) == Err::<
                (int, int, Option<Seq<(Seq<char>, Seq<char>)>>),
                StatusError,
            >(e),
        }),
{
    match v {
        JsonVal::Obj(entries) => {
            let ow = json_obj_get(entries, "online");
            let mw = json_obj_get(entries, "max");
            let online: i64 = match ow {
                None => {
                    return Err(StatusError::MissingField);
                },
                Some(w) => match w.as_int_val() {
                    Some(x) => {
                        if mw.is_none() {
                            return Err(StatusError::MissingField);
                        }
                        x
                    },
                    None => {
                        if mw.is_none() {
                            return Err(StatusError::MissingField);
                        }
                        return Err(StatusError::MalformedField);
                    },
                },
            };
            let max: i64 = match mw {
                None => {
                    return Err(StatusError::MissingField);
                },
                Some(w) => match w.as_int_val() {
                    Some(x) => x,
                    None => {
                        return Err(StatusError::MalformedField);
                    },
                },
            };
            match json_obj_get(entries, "sample") {
                None => Ok(PlayerInfo { online, max, sample: None }),
                Some(w) => match w {
                    JsonVal::Arr(items) => {
                        proof {
                            assert(items@.skip(0) =~= items@);
                        }
                        match parse_sample(items, 0) {
                            Err(e) => Err(e),
                            Ok(sv) => Ok(PlayerInfo { online, max, sample: Some(sv) }),
                        }
                    },
                    _ => Err(StatusError::MalformedField),
                },
            }
        },
        _ => Err(StatusError::MissingField),
    }
}

/// Parses the version member.
pub fn parse_version(v: &JsonVal) -> (r: Result<VersionInfo, StatusError>)
    ensures
        (match r {
            Ok(w) => spec_version_of(*v) == Ok::<(Seq<char>, int), StatusError>((
                w.name@,
                w.protocol as int,
            )),
            Err(e) => spec_version_of(*v) == Err::<(Seq<char>, int), StatusError>(e),
        }),
{
    match v {
        JsonVal::Obj(entries) => {
            let nw = json_obj_get(entries, "name");
            let pw = json_obj_get(entries, "protocol");
            let name: &String = match nw {
                None => {
                    return Err(StatusError::MissingField);
                },
                Some(w) => match w.as_str_val() {
                    Some(s) => {
                        if pw.is_none() {
                            return Err(StatusError::MissingField);
                        }
                        s
                    },
                    None => {
                        if pw.is_none() {
                            return Err(StatusError::MissingField);
                        }
                        return Err(StatusError::MalformedField);
                    },
                },
            };
            match pw {
                None => Err(StatusError::MissingField),
                Some(w) => match w.as_int_val() {
                    Some(p) => Ok(VersionInfo { name: name.clone(), protocol: p }),
                    None => Err(StatusError::MalformedField),
                },
            }
        },
        _ => Err(StatusError::MissingField),
    }
}

/// Parses a whole JSON document into a status result.
pub fn status_from_json(v: &JsonVal) -> (r: Result<StatusResult, StatusError>)
    ensures
        (match r {
            Ok(s) => spec_status_of(*v) == Ok::<StatusView, StatusError>(status_view(s)),
            Err(e) => spec_status_of(*v) == Err::<StatusView, StatusError>(e),
        }),
{
    match v {
        JsonVal::Obj(entries) => {
            let description = match json_obj_get(entries, "description") {
                None => {
                    return Err(StatusError::MissingField);
                },
                Some(d) => match parse_description(d) {
                    Err(e) => {
                        return Err(e);
                    },
                    Ok(d) => d,
                },
            };
            let players = match json_obj_get(entries, "players") {
                None => {
                    return Err(StatusError::MissingField);
                },
                Some(p) => match parse_players(p) {
                    Err(e) => {
                        return Err(e);
                    },
                    Ok(p) => p,
                },
            };
            let version = match json_obj_get(entries, "version") {
                None => {
                    return Err(StatusError::MissingField);
                },
                Some(w) => match parse_version(w) {
                    Err(e) => {
                        return Err(e);
                    },
                    Ok(w) => w,
                },
            };
            Ok(StatusResult { description, players, version })
        },
        _ => Err(StatusError::MissingField),
    }
}

/// Parses the raw JSON bytes of a Status Response. `InvalidJson` exactly
/// when the bytes are not a JSON document; otherwise the shape rules of
/// [`spec_status_of`] decide.
pub fn parse_status(raw: &Vec<u8>) -> (r: Result<StatusResult, StatusError>)
    ensures
        (match r {
            Ok(s) => json_of(raw@) matches Option::Some(v) && spec_status_of(v) == Ok::<
                StatusView,
                StatusError,
            >(status_view(s)),
            Err(e) => if json_of(raw@) is None {
                e == StatusError::InvalidJson
            } else {
                json_of(raw@) matches Option::Some(v) && spec_status_of(v) == Err::<
                    StatusView,
                    StatusError,
                >(e)
            },
        }),
{
    match parse_json_bytes(raw) {
        None => Err(StatusError::InvalidJson),
        Some(v) => status_from_json(&v),
    }
}

/// The display text that either description shape resolves to.
pub fn description_text(d: &ServerDescription) -> (r: String)
    ensures
        (match d {
            ServerDescription::Plain(t) => r@ == t@,
            ServerDescription::Object(t) => r@ == t@,
        }),
{
    match d {
        ServerDescription::Plain(t) => t.clone(),
        ServerDescription::Object(t) => t.clone(),
    }
}

/// Names joined with a newline between neighbours.
pub open spec fn joined_names(names: Seq<Seq<char>>) -> Seq<char>
    decreases names.len(),
{
    if names.len() == 0 {
        Seq::empty()
    } else if names.len() == 1 {
        names[0]
    } else {
        names[0] + seq!['\n'] + joined_names(names.skip(1))
    }
}

proof fn lemma_joined_snoc(names: Seq<Seq<char>>, last: Seq<char>)
    requires
        names.len() >= 1,
    ensures
        joined_names(names.push(last)) == joined_names(names) + seq!['\n'] + last,
    decreases names.len(),
{
    let whole = names.push(last);
    if names.len() == 1 {
        assert(whole.skip(1) =~= seq![last]);
        assert(joined_names(seq![last]) == last);
    } else {
        assert(whole.skip(1) =~= names.skip(1).push(last));
        lemma_joined_snoc(names.skip(1), last);
        assert(whole[0] == names[0]);
        assert((names[0] + seq!['\n'] + (joined_names(names.skip(1)) + seq!['\n'] + last)) =~= ((
        names[0] + seq!['\n'] + joined_names(names.skip(1))) + seq!['\n'] + last));
    }
}

/// The sample names joined by newlines; an absent sample and an empty one
/// both render as the empty string.
pub fn player_names_joined(sample: &Option<Vec<PlayerSample>>) -> (r: String)
    ensures
        r@ == (match sample {
            Option::None => Seq::<char>::empty(),
            Option::Some(v) => joined_names(v@.map(|j: int, p: PlayerSample| p.name@)),
        }),
{
    match sample {
        None => String::new(),
        Some(v) => {
            let ghost names = v@.map(|j: int, p: PlayerSample| p.name@);
            let mut out = String::new();
            let mut i: usize = 0;
            while i < v.len()
                invariant
                    i <= v@.len(),
                    names == v@.map(|j: int, p: PlayerSample| p.name@),
                    out@ == joined_names(names.take(i as int)),
                decreases v@.len() - i,
            {
                proof {
                    reveal_strlit("\n");
                    assert(names[i as int] == v@[i as int].name@);
                    assert(names.take(i as int + 1) =~= names.take(i as int).push(
                        names[i as int],
                    ));
                }
                if i > 0 {
                    out.append("\n");
                    proof {
                        lemma_joined_snoc(names.take(i as int), names[i as int]);
                        assert("\n"@ =~= seq!['\n']);
                    }
                } else {
                    proof {
                        assert(names.take(1)[0] == names[0]);
                    }
                }
                out.append(v[i].name.as_str());
                i = i + 1;
            }
            proof {
                assert(names.take(v@.len() as int) =~= names);
            }
            out
        },
    }
}

/// Law: a players object without a `sample` key parses with the sample
/// absent, and an absent sample renders as the empty string.
pub proof fn lemma_sample_absent(v: JsonVal)
    requires
        v matches JsonVal::Obj(entries) && (obj_get(entries@, "sample"@) is None && ((obj_get(
            entries@,
            "online"@,
        ) matches Option::Some(JsonVal::Int(_))) && (obj_get(entries@, "max"@)
            matches Option::Some(JsonVal::Int(_))))),
    ensures
        spec_players_of(v) matches Ok(t) && t.2 is None,
        joined_names(Seq::<Seq<char>>::empty()) == Seq::<char>::empty(),
{
}

} // verus!
