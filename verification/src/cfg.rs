//! Generation of `gamestate_integration_*.cfg` files for Counter-Strike 2.
//!
//! CS2 reads any file matching `cfg/gamestate_integration_*.cfg` on launch
//! and starts POSTing payloads to the URI declared inside. This module
//! produces files in the shape the upstream CounterStrike2GSI library emits:
//! every data section enabled, sensible throttle / heartbeat values, and
//! lets callers tweak only the bits they care about.
//!
//! Durations are kept in tenths of a second, the precision the file is
//! written with (`"5.0"`, `"0.1"`, ...).

use vstd::prelude::*;
use crate::strmap::{StrMap, lookup};
use crate::text::{decimal, digit_char, push_char, push_decimal, chars_of};

verus! {

/// Builder for a single `gamestate_integration_*.cfg` file.
#[derive(Clone, Debug)]
pub struct GsiCfg {
    /// User-visible name. Becomes part of the file name and the top-level
    /// KeyValues key (`"<service> Integration Configuration" { ... }`).
    pub service_name: String,
    /// Endpoint URI. Defaults to `http://localhost:<port>/`.
    pub uri: String,
    /// Network timeout, in tenths of a second.
    pub timeout: u32,
    /// Coalesce window, in tenths of a second (CS2 will sit on a payload up
    /// to this long before sending it out).
    pub buffer: u32,
    /// Minimum time between subsequent payloads, in tenths of a second;
    /// prevents overload.
    pub throttle: u32,
    /// Liveness interval, in tenths of a second: CS2 emits an unchanged
    /// payload this often.
    pub heartbeat: u32,
    /// Optional `auth { ... }` block. CS2 echoes these fields back to your
    /// listener verbatim. Useful to authenticate multiple co-hosted clients.
    pub auth: StrMap<String>,
    /// Subscribed data sections. Each value is `"1"` to enable, `"0"` to
    /// disable.
    pub data: StrMap<String>,
}

/// The data sections a default configuration subscribes to.
pub open spec fn default_sections() -> Seq<Seq<char>> {
    seq![
        "provider"@, "tournamentdraft"@, "map"@, "map_round_wins"@, "round"@, "player_id"@,
        "player_state"@, "player_weapons"@, "player_match_stats"@, "player_position"@,
        "phase_countdowns"@, "allplayers_id"@, "allplayers_state"@, "allplayers_match_stats"@,
        "allplayers_weapons"@, "allplayers_position"@, "allgrenades"@, "bomb"@,
    ]
}

/// The map holds exactly the default sections, each enabled (`"1"`).
pub open spec fn holds_default_sections(m: StrMap<String>) -> bool {
    forall|k: Seq<char>| {
        &&& (#[trigger] m.get_spec(k) is Some <==> default_sections().contains(k))
        &&& (m.get_spec(k) matches Some(v) ==> v@ == "1"@)
    }
}

/// Every known data section, enabled.
pub fn default_data_sections() -> (m: StrMap<String>)
    ensures
        holds_default_sections(m),
{
    let names: [&str; 18] = [
        "provider", "tournamentdraft", "map", "map_round_wins", "round", "player_id",
        "player_state", "player_weapons", "player_match_stats", "player_position",
        "phase_countdowns", "allplayers_id", "allplayers_state", "allplayers_match_stats",
        "allplayers_weapons", "allplayers_position", "allgrenades", "bomb",
    ];
    let ghost views = names@.map_values(|s: &str| s@);
    assert(views =~= default_sections());
    let mut m: StrMap<String> = StrMap::new();
    let mut i: usize = 0;
    while i < 18
        invariant
            i <= 18,
            names@.len() == 18,
            views == names@.map_values(|s: &str| s@),
            forall|k: Seq<char>| {
                &&& (#[trigger] m.get_spec(k) is Some <==> views.take(i as int).contains(k))
                &&& (m.get_spec(k) matches Some(v) ==> v@ == "1"@)
            },
        decreases 18 - i,
    {
        let ghost before = m;
        let key = String::from_str(names[i]);
        let one = String::from_str("1");
        m.insert(key, one);
        proof {
            assert(views.take(i + 1) =~= views.take(i as int).push(views[i as int]));
            assert forall|k: Seq<char>| {
                &&& (#[trigger] m.get_spec(k) is Some <==> views.take(i + 1).contains(k))
                &&& (m.get_spec(k) matches Some(v) ==> v@ == "1"@)
            } by {
                if k == views[i as int] {
                    assert(views.take(i + 1)[i as int] == k);
                } else {
                    assert(m.get_spec(k) == before.get_spec(k));
                    let t0 = views.take(i as int);
                    if t0.contains(k) {
                        let j = choose|j: int| 0 <= j < t0.len() && t0[j] == k;
                        assert(views.take(i + 1)[j] == k);
                    }
                    let t1 = views.take(i + 1);
                    if t1.contains(k) {
                        let j = choose|j: int| 0 <= j < t1.len() && t1[j] == k;
                        assert(j < i);
                        assert(views.take(i as int)[j] == k);
                        assert(views.take(i as int).contains(k));
                    }
                }
            }
        }
        i = i + 1;
    }
    assert(views.take(18) =~= views);
    m
}

/// A duration of `t` tenths of a second, written with one decimal.
pub open spec fn tenths_text(t: u32) -> Seq<char> {
    decimal((t / 10) as nat) + seq!['.', digit_char((t % 10) as nat)]
}

/// `s` padded on the right with spaces to at least `width` characters.
pub open spec fn pad_right(s: Seq<char>, width: nat) -> Seq<char> {
    if s.len() < width {
        s + Seq::new((width - s.len()) as nat, |i: int| ' ')
    } else {
        s
    }
}

/// A key written between double quotes.
pub open spec fn quoted(k: Seq<char>) -> Seq<char> {
    seq!['"'] + k + seq!['"']
}

/// The lines of the `auth` block, one per token.
pub open spec fn auth_lines(p: Seq<(String, String)>) -> Seq<char>
    decreases p.len(),
{
    if p.len() == 0 {
        Seq::empty()
    } else {
        auth_lines(p.drop_last()) + "        "@ + quoted(p.last().0@) + "        "@ + quoted(p.last().1@) + "\n"@
    }
}

/// The `auth` block: present only when there is at least one token.
pub open spec fn auth_block(p: Seq<(String, String)>) -> Seq<char> {
    if p.len() == 0 {
        Seq::empty()
    } else {
        "    \"auth\"\n"@ + "    {\n"@ + auth_lines(p) + "    }\n"@
    }
}

/// The lines of the `data` block: the quoted key, padded outside the quotes
/// to 26 characters, then the quoted value.
pub open spec fn data_lines(p: Seq<(String, String)>) -> Seq<char>
    decreases p.len(),
{
    if p.len() == 0 {
        Seq::empty()
    } else {
        data_lines(p.drop_last()) + "        "@ + pad_right(quoted(p.last().0@), 26) + "        "@
            + quoted(p.last().1@) + "\n"@
    }
}

/// The header line and the timing settings.
pub open spec fn rendered_head(c: GsiCfg) -> Seq<char> {
    "\""@ + c.service_name@ + " Integration Configuration\"\n"@ + "{\n"@
        + "    \"uri\"          \""@ + c.uri@ + "\"\n"@
        + "    \"timeout\"      \""@ + tenths_text(c.timeout) + "\"\n"@
        + "    \"buffer\"       \""@ + tenths_text(c.buffer) + "\"\n"@
        + "    \"throttle\"     \""@ + tenths_text(c.throttle) + "\"\n"@
        + "    \"heartbeat\"    \""@ + tenths_text(c.heartbeat) + "\"\n"@
}

/// The full text of the cfg file.
pub open spec fn rendered(c: GsiCfg) -> Seq<char> {
    rendered_head(c) + auth_block(c.auth.pairs()) + "    \"data\"\n"@ + "    {\n"@
        + data_lines(c.data.pairs()) + "    }\n"@ + "}\n"@
}

/// Whether `char::is_alphanumeric` holds of `c` (the Unicode `Alphabetic`
/// or `Numeric` property).
pub uninterp spec fn alphanumeric(c: char) -> bool;

/// Calls `char::is_alphanumeric`. Its result depends on `c` alone and is
/// named [`alphanumeric`]; the Unicode tables behind it are not stated here.
#[verifier::external_body]
fn is_alphanumeric(c: char) -> (r: bool)
    ensures
        r == alphanumeric(c),
{
    c.is_alphanumeric()
}

/// The slug of `name`: each character kept where `keep` says so, else
/// replaced by `_`.
pub open spec fn slug(name: Seq<char>, keep: Seq<bool>) -> Seq<char> {
    Seq::new(name.len(), |i: int| if keep[i] { name[i] } else { '_' })
}

/// `gamestate_integration_<slug>.cfg`.
pub open spec fn cfg_file_name(name: Seq<char>, keep: Seq<bool>) -> Seq<char> {
    "gamestate_integration_"@ + slug(name, keep) + ".cfg"@
}

/// The file name for service `name`, given for each of its characters
/// whether it is alphanumeric (kept) or not (replaced by `_`).
pub fn file_name_from(name: &str, keep: &Vec<bool>) -> (r: String)
    requires
        keep@.len() == name@.len(),
    ensures
        r@ == cfg_file_name(name@, keep@),
{
    let cs = chars_of(name);
    let mut out = String::from_str("gamestate_integration_");
    let ghost start = out@;
    let mut i: usize = 0;
    while i < cs.len()
        invariant
            cs@ == name@,
            keep@.len() == name@.len(),
            i <= cs@.len(),
            out@ == start + slug(name@, keep@).take(i as int),
        decreases cs.len() - i,
    {
        if keep[i] {
            push_char(&mut out, cs[i]);
        } else {
            push_char(&mut out, '_');
        }
        assert(slug(name@, keep@).take(i + 1) =~= slug(name@, keep@).take(i as int).push(slug(name@, keep@)[i as int]));
        i = i + 1;
    }
    assert(slug(name@, keep@).take(cs@.len() as int) =~= slug(name@, keep@));
    out.append(".cfg");
    out
}

fn push_tenths(out: &mut String, t: u32)
    ensures
        final(out)@ == old(out)@ + tenths_text(t),
{
    push_decimal(out, t / 10);
    push_char(out, '.');
    let d = t % 10;
    let mut digit = String::new();
    push_decimal(&mut digit, d);
    proof {
        assert(decimal(d as nat) =~= seq![digit_char(d as nat)]);
    }
    out.append(digit.as_str());
    assert(out@ =~= old(out)@ + tenths_text(t));
}

fn push_quoted(out: &mut String, k: &str)
    ensures
        final(out)@ == old(out)@ + quoted(k@),
{
    push_char(out, '"');
    out.append(k);
    push_char(out, '"');
    assert(out@ =~= old(out)@ + quoted(k@));
}

impl GsiCfg {
    /// Create a default config that points at `http://localhost:<port>/`
    /// with every known data section enabled, a 5.0 s timeout, 0.1 s
    /// buffer and throttle, and a 10.0 s heartbeat.
    pub fn for_localhost(service_name: String, port: u16) -> (c: Self)
        ensures
            c.service_name == service_name,
            c.uri@ == "http://localhost:"@ + decimal(port as nat) + "/"@,
            c.timeout == 50,
            c.buffer == 1,
            c.throttle == 1,
            c.heartbeat == 100,
            c.auth.pairs().len() == 0,
            holds_default_sections(c.data),
    {
        let mut uri = String::from_str("http://localhost:");
        push_decimal(&mut uri, port as u32);
        uri.append("/");
        GsiCfg {
            service_name,
            uri,
            timeout: 50,
            buffer: 1,
            throttle: 1,
            heartbeat: 100,
            auth: StrMap::new(),
            data: default_data_sections(),
        }
    }

    /// Override the listener URI.
    pub fn with_uri(self, uri: String) -> (c: Self)
        ensures
            c == (GsiCfg { uri, ..self }),
    {
        GsiCfg { uri, ..self }
    }

    /// Add a single auth `key = value` token. The same value will be echoed
    /// back inside `GameState.auth` on every payload.
    pub fn with_auth(self, key: String, value: String) -> (c: Self)
        ensures
            c.auth.get_spec(key@) == Some(value),
            forall|q: Seq<char>| q != key@ ==> c.auth.get_spec(q) == self.auth.get_spec(q),
            c.service_name == self.service_name,
            c.uri == self.uri,
            c.timeout == self.timeout,
            c.buffer == self.buffer,
            c.throttle == self.throttle,
            c.heartbeat == self.heartbeat,
            c.data == self.data,
    {
        let mut c = self;
        c.auth.insert(key, value);
        c
    }

    /// Disable a previously enabled data section.
    pub fn without_section(self, name: &str) -> (c: Self)
        ensures
            c.data.get_spec(name@) is None,
            forall|q: Seq<char>| q != name@ ==> c.data.get_spec(q) == self.data.get_spec(q),
            c.service_name == self.service_name,
            c.uri == self.uri,
            c.timeout == self.timeout,
            c.buffer == self.buffer,
            c.throttle == self.throttle,
            c.heartbeat == self.heartbeat,
            c.auth == self.auth,
    {
        let mut c = self;
        c.data.remove(name);
        c
    }

    /// Sanitise the service name into a filename-safe slug:
    /// `gamestate_integration_<slug>.cfg`, where every character that is not
    /// alphanumeric becomes `_`.
    pub fn file_name(&self) -> (r: String)
        ensures
            r@ == cfg_file_name(self.service_name@, self.service_name@.map_values(|c: char| alphanumeric(c))),
    {
        let cs = chars_of(self.service_name.as_str());
        let mut keep: Vec<bool> = Vec::new();
        let mut i: usize = 0;
        while i < cs.len()
            invariant
                i <= cs@.len(),
                keep@ == cs@.take(i as int).map_values(|c: char| alphanumeric(c)),
            decreases cs.len() - i,
        {
            keep.push(is_alphanumeric(cs[i]));
            assert(cs@.take(i + 1) =~= cs@.take(i as int).push(cs@[i as int]));
            assert(keep@ =~= cs@.take(i + 1).map_values(|c: char| alphanumeric(c)));
            i = i + 1;
        }
        assert(cs@.take(cs@.len() as int) =~= cs@);
        file_name_from(self.service_name.as_str(), &keep)
    }

    /// Render the file content as a string (without writing it to disk).
    pub fn render(&self) -> (out: String)
        ensures
            out@ == rendered(*self),
    {
        let mut out = String::new();
        push_char(&mut out, '"');
        out.append(self.service_name.as_str());
        out.append(" Integration Configuration\"\n");
        out.append("{\n");
        out.append("    \"uri\"          \"");
        out.append(self.uri.as_str());
        out.append("\"\n");
        out.append("    \"timeout\"      \"");
        push_tenths(&mut out, self.timeout);
        out.append("\"\n");
        out.append("    \"buffer\"       \"");
        push_tenths(&mut out, self.buffer);
        out.append("\"\n");
        out.append("    \"throttle\"     \"");
        push_tenths(&mut out, self.throttle);
        out.append("\"\n");
        out.append("    \"heartbeat\"    \"");
        push_tenths(&mut out, self.heartbeat);
        out.append("\"\n");
        proof {
            reveal_strlit("\"");
            assert(out@ =~= rendered_head(*self));
        }
        let ghost head = out@;
        if !self.auth.is_empty() {
            out.append("    \"auth\"\n");
            out.append("    {\n");
            let entries = self.auth.entries();
            let ghost p = self.auth.pairs();
            let ghost start = out@;
            let mut i: usize = 0;
            assert(p.take(0) =~= Seq::<(String, String)>::empty());
            while i < entries.len()
                invariant
                    p == self.auth.pairs(),
                    entries@.len() == p.len(),
                    forall|j: int| 0 <= j < entries@.len() ==>
                        *(#[trigger] entries@[j]).0 == p[j].0 && *entries@[j].1 == p[j].1,
                    i <= entries@.len(),
                    out@ == start + auth_lines(p.take(i as int)),
                decreases entries.len() - i,
            {
                let (k, v) = entries[i];
                out.append("        ");
                push_quoted(&mut out, k.as_str());
                out.append("        ");
                push_quoted(&mut out, v.as_str());
                out.append("\n");
                proof {
                    let t = p.take(i + 1);
                    assert(t.drop_last() =~= p.take(i as int));
                    assert(t.last() == p[i as int]);
                    assert(out@ =~= start + auth_lines(t));
                }
                i = i + 1;
            }
            assert(p.take(p.len() as int) =~= p);
            out.append("    }\n");
            assert(out@ =~= head + auth_block(p));
        } else {
            assert(out@ =~= head + auth_block(self.auth.pairs()));
        }
        out.append("    \"data\"\n");
        out.append("    {\n");
        let entries = self.data.entries();
        let ghost p = self.data.pairs();
        let ghost start = out@;
        let mut i: usize = 0;
        assert(p.take(0) =~= Seq::<(String, String)>::empty());
        while i < entries.len()
            invariant
                p == self.data.pairs(),
                entries@.len() == p.len(),
                forall|j: int| 0 <= j < entries@.len() ==>
                    *(#[trigger] entries@[j]).0 == p[j].0 && *entries@[j].1 == p[j].1,
                i <= entries@.len(),
                out@ == start + data_lines(p.take(i as int)),
            decreases entries.len() - i,
        {
            let (k, v) = entries[i];
            out.append("        ");
            // Pad the quoted key (not the key itself) so CS2's KeyValues
            // parser sees the bare key name.
            let mut q = String::new();
            push_quoted(&mut q, k.as_str());
            let qlen = chars_of(q.as_str()).len();
            out.append(q.as_str());
            let mut pad: usize = qlen;
            let ghost before_pad = out@;
            while pad < 26
                invariant
                    qlen <= pad <= 26 || (pad == qlen && qlen >= 26),
                    out@ == before_pad + Seq::new((pad - qlen) as nat, |j: int| ' '),
                decreases 26 - pad,
            {
                push_char(&mut out, ' ');
                proof {
                    assert(Seq::new((pad + 1 - qlen) as nat, |j: int| ' ')
                        =~= Seq::new((pad - qlen) as nat, |j: int| ' ').push(' '));
                }
                pad = pad + 1;
            }
            out.append("        ");
            push_quoted(&mut out, v.as_str());
            out.append("\n");
            proof {
                if qlen >= 26 {
                    assert(Seq::new((pad - qlen) as nat, |j: int| ' ') =~= Seq::<char>::empty());
                }
                assert(before_pad + Seq::new((pad - qlen) as nat, |j: int| ' ') =~= start + data_lines(p.take(i as int)) + "        "@ + pad_right(quoted(k@), 26));
                let t = p.take(i + 1);
                assert(t.drop_last() =~= p.take(i as int));
                assert(t.last() == p[i as int]);
                assert(out@ =~= start + data_lines(t));
            }
            i = i + 1;
        }
        assert(p.take(p.len() as int) =~= p);
        out.append("    }\n");
        out.append("}\n");
        assert(out@ =~= rendered(*self));
        out
    }
}

// ----------------------------------------------------------------- laws

/// `t` occurs in `s` as a contiguous piece.
pub open spec fn occurs(s: Seq<char>, t: Seq<char>) -> bool {
    exists|i: int| 0 <= i && i + t.len() <= s.len() && #[trigger] s.subrange(i, i + t.len()) == t
}

proof fn lemma_occurs_at(s: Seq<char>, t: Seq<char>, i: int)
    requires
        0 <= i,
        i + t.len() <= s.len(),
        s.subrange(i, i + t.len()) == t,
    ensures
        occurs(s, t),
{
}

proof fn lemma_occurs_left(a: Seq<char>, b: Seq<char>, t: Seq<char>)
    requires
        occurs(a, t),
    ensures
        occurs(a + b, t),
{
    let i = choose|i: int| 0 <= i && i + t.len() <= a.len() && #[trigger] a.subrange(i, i + t.len()) == t;
    assert((a + b).subrange(i, i + t.len()) =~= a.subrange(i, i + t.len()));
    lemma_occurs_at(a + b, t, i);
}

proof fn lemma_occurs_right(a: Seq<char>, b: Seq<char>, t: Seq<char>)
    requires
        occurs(b, t),
    ensures
        occurs(a + b, t),
{
    let i = choose|i: int| 0 <= i && i + t.len() <= b.len() && #[trigger] b.subrange(i, i + t.len()) == t;
    assert((a + b).subrange(a.len() + i, a.len() + i + t.len()) =~= b.subrange(i, i + t.len()));
    lemma_occurs_at(a + b, t, a.len() + i);
}

proof fn lemma_occurs_start(a: Seq<char>, b: Seq<char>)
    ensures
        occurs(a + b, a),
{
    assert((a + b).subrange(0, a.len() as int) =~= a);
    lemma_occurs_at(a + b, a, 0);
}

/// The indented, quoted key of a `data` line.
pub open spec fn data_key_token(k: Seq<char>) -> Seq<char> {
    "        "@ + quoted(k)
}

proof fn lemma_data_lines_hold_keys(p: Seq<(String, String)>, j: int)
    requires
        0 <= j < p.len(),
    ensures
        occurs(data_lines(p), data_key_token(p[j].0@)),
    decreases p.len(),
{
    let q = p.drop_last();
    let k = p.last().0@;
    let line_rest = pad_right(quoted(k), 26) + "        "@ + quoted(p.last().1@) + "\n"@;
    if j == p.len() - 1 {
        let tail = "        "@ + line_rest;
        assert("        "@ + pad_right(quoted(k), 26) + "        "@ + quoted(p.last().1@) + "\n"@ =~= tail);
        assert(pad_right(quoted(k), 26).subrange(0, quoted(k).len() as int) =~= quoted(k));
        assert(tail.subrange(0, data_key_token(k).len() as int) =~= data_key_token(k));
        lemma_occurs_at(tail, data_key_token(k), 0);
        assert(data_lines(p) =~= data_lines(q) + tail);
        lemma_occurs_right(data_lines(q), tail, data_key_token(k));
    } else {
        lemma_data_lines_hold_keys(q, j);
        assert(q[j] == p[j]);
        let tail = "        "@ + pad_right(quoted(k), 26) + "        "@ + quoted(p.last().1@) + "\n"@;
        assert(data_lines(p) =~= data_lines(q) + tail);
        lemma_occurs_left(data_lines(q), tail, data_key_token(p[j].0@));
    }
}

/// Every data section key appears in the rendered file as the exact token
/// `"<key>"` (quotes directly around the name, the padding outside the
/// closing quote), indented on its own line.
pub proof fn lemma_render_quotes_each_data_key(c: GsiCfg, j: int)
    requires
        0 <= j < c.data.pairs().len(),
    ensures
        occurs(rendered(c), data_key_token(c.data.pairs()[j].0@)),
{
    let t = data_key_token(c.data.pairs()[j].0@);
    lemma_data_lines_hold_keys(c.data.pairs(), j);
    let a = rendered_head(c) + auth_block(c.auth.pairs()) + "    \"data\"\n"@ + "    {\n"@;
    let d = data_lines(c.data.pairs());
    let z = "    }\n"@ + "}\n"@;
    lemma_occurs_right(a, d, t);
    lemma_occurs_left(a + d, z, t);
    assert(rendered(c) =~= (a + d) + z);
}

/// The auth line of a token.
pub open spec fn auth_line(k: Seq<char>, v: Seq<char>) -> Seq<char> {
    "        "@ + quoted(k) + "        "@ + quoted(v) + "\n"@
}

proof fn lemma_auth_lines_hold_tokens(p: Seq<(String, String)>, j: int)
    requires
        0 <= j < p.len(),
    ensures
        occurs(auth_lines(p), auth_line(p[j].0@, p[j].1@)),
    decreases p.len(),
{
    let q = p.drop_last();
    let tail = auth_line(p.last().0@, p.last().1@);
    assert(auth_lines(p) =~= auth_lines(q) + tail);
    if j == p.len() - 1 {
        assert(tail.subrange(0, tail.len() as int) =~= tail);
        lemma_occurs_at(tail, tail, 0);
        lemma_occurs_right(auth_lines(q), tail, tail);
    } else {
        lemma_auth_lines_hold_tokens(q, j);
        assert(q[j] == p[j]);
        lemma_occurs_left(auth_lines(q), tail, auth_line(p[j].0@, p[j].1@));
    }
}

proof fn lemma_lookup_index(p: Seq<(String, String)>, k: Seq<char>)
    requires
        lookup(p, k) is Some,
    ensures
        exists|j: int| 0 <= j < p.len() && #[trigger] p[j].0@ == k && Some(p[j].1) == lookup(p, k),
    decreases p.len(),
{
    if p[0].0@ != k {
        lemma_lookup_index(p.drop_first(), k);
        let j = choose|j: int| 0 <= j < p.drop_first().len() && #[trigger] p.drop_first()[j].0@ == k
            && Some(p.drop_first()[j].1) == lookup(p.drop_first(), k);
        assert(p[j + 1] == p.drop_first()[j]);
    } else {
        assert(p[0].0@ == k);
    }
}

/// Every auth token is written into an `auth` block of the rendered file,
/// as `"<key>"        "<value>"` on its own line; so a token added with
/// [`GsiCfg::with_auth`] shows up in the output.
pub proof fn lemma_render_writes_auth_tokens(c: GsiCfg, key: Seq<char>)
    requires
        c.auth.get_spec(key) is Some,
    ensures
        occurs(rendered(c), "    \"auth\"\n"@),
        occurs(rendered(c), auth_line(key, c.auth.get_spec(key)->0@)),
{
    let p = c.auth.pairs();
    lemma_lookup_index(p, key);
    let j = choose|j: int| 0 <= j < p.len() && #[trigger] p[j].0@ == key && Some(p[j].1) == lookup(p, key);
    lemma_auth_lines_hold_tokens(p, j);
    let h = rendered_head(c);
    let open = "    \"auth\"\n"@ + "    {\n"@;
    let blk = auth_block(p);
    assert(blk =~= open + auth_lines(p) + "    }\n"@);
    let rest = "    \"data\"\n"@ + "    {\n"@ + data_lines(c.data.pairs()) + "    }\n"@ + "}\n"@;
    assert(rendered(c) =~= h + blk + rest);
    let t = auth_line(key, c.auth.get_spec(key)->0@);
    lemma_occurs_right(open, auth_lines(p), t);
    lemma_occurs_left(open + auth_lines(p), "    }\n"@, t);
    lemma_occurs_right(h, blk, t);
    lemma_occurs_left(h + blk, rest, t);
    lemma_occurs_start("    \"auth\"\n"@, "    {\n"@ + auth_lines(p) + "    }\n"@);
    assert(blk =~= "    \"auth\"\n"@ + ("    {\n"@ + auth_lines(p) + "    }\n"@));
    lemma_occurs_right(h, blk, "    \"auth\"\n"@);
    lemma_occurs_left(h + blk, rest, "    \"auth\"\n"@);
}

/// The file starts with the quoted `"<service> Integration Configuration"`
/// header line.
pub proof fn lemma_render_starts_with_header(c: GsiCfg)
    ensures
        rendered(c).len() >= ("\""@ + c.service_name@ + " Integration Configuration\"\n"@).len(),
        rendered(c).subrange(0, ("\""@ + c.service_name@ + " Integration Configuration\"\n"@).len() as int)
            == "\""@ + c.service_name@ + " Integration Configuration\"\n"@,
{
    let hd = "\""@ + c.service_name@ + " Integration Configuration\"\n"@;
    let rest = rendered(c).subrange(hd.len() as int, rendered(c).len() as int);
    assert(rendered(c) =~= hd + ("{\n"@
        + "    \"uri\"          \""@ + c.uri@ + "\"\n"@
        + "    \"timeout\"      \""@ + tenths_text(c.timeout) + "\"\n"@
        + "    \"buffer\"       \""@ + tenths_text(c.buffer) + "\"\n"@
        + "    \"throttle\"     \""@ + tenths_text(c.throttle) + "\"\n"@
        + "    \"heartbeat\"    \""@ + tenths_text(c.heartbeat) + "\"\n"@
        + auth_block(c.auth.pairs()) + "    \"data\"\n"@ + "    {\n"@
        + data_lines(c.data.pairs()) + "    }\n"@ + "}\n"@));
    assert(rendered(c).subrange(0, hd.len() as int) =~= hd);
}

proof fn lemma_occurs_between(a: Seq<char>, t: Seq<char>, b: Seq<char>)
    ensures
        occurs(a + t + b, t),
{
    assert((a + t + b).subrange(a.len() as int, (a.len() + t.len()) as int) =~= t);
}

/// Each setting is written on its own line with its own value: the rendered
/// text holds the line `"uri"` with the configured URI, and the lines
/// `"timeout"`, `"buffer"`, `"throttle"` and `"heartbeat"` each with that
/// setting's duration, written with one decimal.
pub proof fn lemma_render_writes_each_setting(c: GsiCfg)
    ensures
        occurs(rendered(c), "    \"uri\"          \""@ + c.uri@ + "\"\n"@),
        occurs(rendered(c), "    \"timeout\"      \""@ + tenths_text(c.timeout) + "\"\n"@),
        occurs(rendered(c), "    \"buffer\"       \""@ + tenths_text(c.buffer) + "\"\n"@),
        occurs(rendered(c), "    \"throttle\"     \""@ + tenths_text(c.throttle) + "\"\n"@),
        occurs(rendered(c), "    \"heartbeat\"    \""@ + tenths_text(c.heartbeat) + "\"\n"@),
{
    let h = "\""@ + c.service_name@ + " Integration Configuration\"\n"@ + "{\n"@;
    let u = "    \"uri\"          \""@ + c.uri@ + "\"\n"@;
    let t = "    \"timeout\"      \""@ + tenths_text(c.timeout) + "\"\n"@;
    let b = "    \"buffer\"       \""@ + tenths_text(c.buffer) + "\"\n"@;
    let th = "    \"throttle\"     \""@ + tenths_text(c.throttle) + "\"\n"@;
    let hb = "    \"heartbeat\"    \""@ + tenths_text(c.heartbeat) + "\"\n"@;
    let tail = auth_block(c.auth.pairs()) + "    \"data\"\n"@ + "    {\n"@
        + data_lines(c.data.pairs()) + "    }\n"@ + "}\n"@;
    assert(rendered(c) =~= h + u + t + b + th + hb + tail);
    lemma_occurs_in_lines(h, u, t, b, th, hb, tail);
}

proof fn lemma_occurs_in_lines(
    h: Seq<char>,
    x1: Seq<char>,
    x2: Seq<char>,
    x3: Seq<char>,
    x4: Seq<char>,
    x5: Seq<char>,
    tail: Seq<char>,
)
    ensures
        occurs(h + x1 + x2 + x3 + x4 + x5 + tail, x1),
        occurs(h + x1 + x2 + x3 + x4 + x5 + tail, x2),
        occurs(h + x1 + x2 + x3 + x4 + x5 + tail, x3),
        occurs(h + x1 + x2 + x3 + x4 + x5 + tail, x4),
        occurs(h + x1 + x2 + x3 + x4 + x5 + tail, x5),
{
    let r = h + x1 + x2 + x3 + x4 + x5 + tail;
    assert(r =~= h + x1 + (x2 + x3 + x4 + x5 + tail));
    lemma_occurs_between(h, x1, x2 + x3 + x4 + x5 + tail);
    assert(r =~= (h + x1) + x2 + (x3 + x4 + x5 + tail));
    lemma_occurs_between(h + x1, x2, x3 + x4 + x5 + tail);
    assert(r =~= (h + x1 + x2) + x3 + (x4 + x5 + tail));
    lemma_occurs_between(h + x1 + x2, x3, x4 + x5 + tail);
    assert(r =~= (h + x1 + x2 + x3) + x4 + (x5 + tail));
    lemma_occurs_between(h + x1 + x2 + x3, x4, x5 + tail);
    lemma_occurs_between(h + x1 + x2 + x3 + x4, x5, tail);
}

} // verus!
