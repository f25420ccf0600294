//! Decisions behind the settings pages: host fields, paths, elapsed-time
//! labels and the address a pairing code carries.
use vstd::prelude::*;
use crate::text::{chars_of, is_whitespace, trim, trim_start, trim_end, trim_bounds, string_from_char_range, is_ascii_digit, push_char};
use crate::inline_file::is_number;
use crate::links::digits_value;
use crate::review_lines::{decimal, push_decimal};

verus! {

// ---------------------------------------------------------------------------
// Host fields
// ---------------------------------------------------------------------------
/// `cs` without the `/` characters at its end.
pub open spec fn trim_end_slash(cs: Seq<char>) -> Seq<char>
    decreases cs.len(),
{
    if cs.len() > 0 && cs.last() == '/' {
        trim_end_slash(cs.drop_last())
    } else {
        cs
    }
}

/// Whether `cs` starts with `p`.
pub open spec fn has_prefix(cs: Seq<char>, p: Seq<char>) -> bool {
    p.len() <= cs.len() && cs.take(p.len() as int) == p
}

/// A host typed or pasted into a field: trimmed, without a leading
/// `wss://`, `ws://`, `https://` or `http://` (the first that matches), and
/// without trailing `/`.
pub open spec fn stripped_host(raw: Seq<char>) -> Seq<char> {
    let t = trim(raw);
    if has_prefix(t, "wss://"@) {
        trim_end_slash(t.skip(6))
    } else if has_prefix(t, "ws://"@) {
        trim_end_slash(t.skip(5))
    } else if has_prefix(t, "https://"@) {
        trim_end_slash(t.skip(8))
    } else if has_prefix(t, "http://"@) {
        trim_end_slash(t.skip(7))
    } else {
        trim_end_slash(t)
    }
}

fn starts_with_chars(cs: &[char], from: usize, to: usize, p: &str) -> (r: bool)
    requires
        from <= to <= cs@.len(),
    ensures
        r == has_prefix(cs@.subrange(from as int, to as int), p@),
{
    let pcs = chars_of(p);
    if pcs.len() > to - from {
        return false;
    }
    let mut i: usize = 0;
    while i < pcs.len()
        invariant
            from <= to <= cs@.len(),
            pcs@ == p@,
            pcs@.len() <= to - from,
            i <= pcs@.len(),
            forall|k: int| 0 <= k < i ==> cs@[from + k] == pcs@[k],
        decreases pcs@.len() - i,
    {
        if cs[from + i] != pcs[i] {
            assert(cs@.subrange(from as int, to as int).take(pcs@.len() as int)[i as int] == cs@[from + i]);
            return false;
        }
        i = i + 1;
    }
    assert(cs@.subrange(from as int, to as int).take(pcs@.len() as int) =~= pcs@);
    true
}

/// Strips a pasted scheme so a full URL pasted into a host field does not
/// give `ws://ws://…` (see [`stripped_host`]).
pub fn strip_scheme(raw: &str) -> (r: String)
    ensures
        r@ == stripped_host(raw@),
{
    let cs = chars_of(raw);
    let (a, b) = trim_bounds(&cs, 0, cs.len());
    assert(cs@.subrange(0, cs@.len() as int) =~= cs@);
    let ghost t = cs@.subrange(a as int, b as int);
    let start = if starts_with_chars(&cs, a, b, "wss://") {
        proof { reveal_strlit("wss://"); }
        a + 6
    } else if starts_with_chars(&cs, a, b, "ws://") {
        proof { reveal_strlit("ws://"); }
        a + 5
    } else if starts_with_chars(&cs, a, b, "https://") {
        proof { reveal_strlit("https://"); }
        a + 8
    } else if starts_with_chars(&cs, a, b, "http://") {
        proof { reveal_strlit("http://"); }
        a + 7
    } else {
        a
    };
    assert(cs@.subrange(start as int, b as int) =~= t.skip(start - a));
    let mut end = b;
    while end > start && cs[end - 1] == '/'
        invariant
            start <= end <= b <= cs@.len(),
            trim_end_slash(cs@.subrange(start as int, b as int)) == trim_end_slash(
                cs@.subrange(start as int, end as int),
            ),
        decreases end,
    {
        assert(cs@.subrange(start as int, end as int).drop_last() =~= cs@.subrange(
            start as int,
            end - 1,
        ));
        end = end - 1;
    }
    string_from_char_range(&cs, start, end)
}

// ---------------------------------------------------------------------------
// Home directory paths
// ---------------------------------------------------------------------------
/// What `Path::strip_prefix` gives for `path` and `base`: the rest of the
/// path after the whole components of `base`, when it starts with them.
pub uninterp spec fn path_strip_prefix(path: Seq<char>, base: Seq<char>) -> Option<Seq<char>>;

/// `std::path::Path::strip_prefix`, with the rest turned back into a
/// string. Its result is named [`path_strip_prefix`]: it depends on the two
/// paths alone, and how components match is not restated here.
#[verifier::external_body]
pub(crate) fn strip_path_prefix(path: &str, base: &str) -> (r: Option<String>)
    ensures
        match r {
            Some(rest) => path_strip_prefix(path@, base@) == Some(rest@),
            None => path_strip_prefix(path@, base@) is None,
        },
{
    std::path::Path::new(path).strip_prefix(base).ok().map(|rest| rest.to_string_lossy().into_owned())
}

/// A path shown with the home directory abbreviated, given what is left of
/// it below home (`None` when it is not under home): `~` for home itself,
/// `~/rest` under it, the path as it is otherwise.
pub open spec fn home_abbreviation(path: Seq<char>, below_home: Option<Seq<char>>) -> Seq<char> {
    match below_home {
        Some(rest) => if rest.len() == 0 {
            "~"@
        } else {
            "~/"@ + rest
        },
        None => path,
    }
}

/// A path shown with the home directory abbreviated, given what is left of
/// it below home (see [`home_abbreviation`]).
pub fn abbreviate_below_home(path: &str, below_home: Option<&str>) -> (r: String)
    ensures
        r@ == home_abbreviation(
            path@,
            match below_home {
                Some(rest) => Some(rest@),
                None => None,
            },
        ),
{
    match below_home {
        Some(rest) => {
            if rest.is_empty() {
                "~".to_owned()
            } else {
                let mut out = "~/".to_owned();
                out.append(rest);
                out
            }
        },
        None => path.to_owned(),
    }
}

/// A binary's full path, with only the user's home directory abbreviated.
pub fn abbreviate_home_path(path: &str, home: Option<&str>) -> (r: String)
    ensures
        r@ == home_abbreviation(
            path@,
            match home {
                Some(h) => path_strip_prefix(path@, h@),
                None => None,
            },
        ),
{
    let rest = match home {
        Some(h) => strip_path_prefix(path, h),
        None => None,
    };
    match rest {
        Some(rest) => abbreviate_below_home(path, Some(rest.as_str())),
        None => abbreviate_below_home(path, None),
    }
}

// ---------------------------------------------------------------------------
// Elapsed time
// ---------------------------------------------------------------------------
/// How long ago something happened, as shown.
#[derive(Clone, Copy, Debug, PartialEq, Eq, Structural)]
pub enum Elapsed {
    JustNow,
    MinutesAgo(u64),
    HoursAgo(u64),
    DaysAgo(u64),
}

/// When a provider's detection last ran: just now under a minute and a
/// half, then in whole minutes under an hour, then in whole hours.
pub open spec fn detection_elapsed(seconds: u64) -> Elapsed {
    if seconds < 90 {
        Elapsed::JustNow
    } else if seconds < 3600 {
        Elapsed::MinutesAgo(seconds / 60)
    } else {
        Elapsed::HoursAgo(seconds / 3600)
    }
}

/// When a provider's detection last ran (see [`detection_elapsed`]).
pub fn detection_checked_label(elapsed_seconds: u64) -> (r: Elapsed)
    ensures
        r == detection_elapsed(elapsed_seconds),
{
    if elapsed_seconds < 90 {
        Elapsed::JustNow
    } else if elapsed_seconds < 3600 {
        Elapsed::MinutesAgo(elapsed_seconds / 60)
    } else {
        Elapsed::HoursAgo(elapsed_seconds / 3600)
    }
}

/// When a host was last connected to.
#[derive(Clone, Copy, Debug, PartialEq, Eq, Structural)]
pub enum LastConnected {
    Never,
    Ago(Elapsed),
}

/// When a host was last connected, seen at `now` (seconds since the
/// epoch): never without a record; otherwise as detection times are, with
/// whole days from a day on. A record in the future counts as just now.
pub open spec fn last_connected_of(last_connected: Option<u64>, now: u64) -> LastConnected {
    match last_connected {
        None => LastConnected::Never,
        Some(t) => {
            let seconds = if now > t { (now - t) as u64 } else { 0u64 };
            LastConnected::Ago(
                if seconds < 86400 {
                    detection_elapsed(seconds)
                } else {
                    Elapsed::DaysAgo(seconds / 86400)
                },
            )
        },
    }
}

/// When a host was last connected (see [`last_connected_of`]).
pub fn host_last_connected_label(last_connected: Option<u64>, now: u64) -> (r: LastConnected)
    ensures
        r == last_connected_of(last_connected, now),
{
    match last_connected {
        None => LastConnected::Never,
        Some(timestamp) => {
            let seconds = now.saturating_sub(timestamp);
            LastConnected::Ago(
                if seconds < 86400 {
                    detection_checked_label(seconds)
                } else {
                    Elapsed::DaysAgo(seconds / 86400)
                },
            )
        },
    }
}

// ---------------------------------------------------------------------------
// The pairing code's address
// ---------------------------------------------------------------------------
/// How another device reaches this daemon.
#[derive(Clone, Copy, Debug, PartialEq, Eq, Structural)]
pub enum HostKind {
    Direct,
    Tailscale,
    SshRelay,
    Cloudflare,
}

/// The state of the tunnel a Cloudflare pairing code goes through.
#[derive(Debug, PartialEq, Eq)]
pub enum TunnelStatus {
    /// No tunnel was started.
    Missing,
    /// The tunnel is busy and could not be read.
    Busy,
    Ready(String),
    Starting,
    Failed(String),
    Stopped,
    Idle,
}

/// Why no pairing address can be given.
#[derive(Debug, PartialEq, Eq)]
pub enum QrAddressError {
    NeedDirectHost,
    NeedName,
    NeedHost,
    NeedPort,
    NeedsTunnel,
    TunnelStarting,
    /// The tunnel failed, for this reason.
    TunnelFailed(String),
}

/// A port as typed: an optional `+` then decimal digits, up to 65535
/// (`u16`'s parser).
pub open spec fn parsed_port(cs: Seq<char>) -> Option<nat> {
    let ds = if cs.len() > 0 && cs[0] == '+' {
        cs.drop_first()
    } else {
        cs
    };
    if is_number(ds) && digits_value(ds) <= 65535 {
        Some(digits_value(ds))
    } else {
        None
    }
}

/// Parses a port as `u16::from_str` does (see [`parsed_port`]).
pub fn parse_port(text: &str) -> (r: Option<u16>)
    ensures
        match r {
            Some(p) => parsed_port(text@) == Some(p as nat),
            None => parsed_port(text@) is None,
        },
{
    let cs = chars_of(text);
    let start: usize = if cs.len() > 0 && cs[0] == '+' {
        1
    } else {
        0
    };
    let ghost ds = cs@.skip(start as int);
    assert(start == 1 ==> ds =~= cs@.drop_first());
    assert(start == 0 ==> ds =~= cs@);
    if start == cs.len() {
        return None;
    }
    let mut value: u32 = 0;
    let mut i = start;
    assert(ds.take(0) =~= Seq::<char>::empty());
    while i < cs.len()
        invariant
            start <= i <= cs@.len(),
            cs@ == text@,
            ds == cs@.skip(start as int),
            ds == if cs@.len() > 0 && cs@[0] == '+' {
                cs@.drop_first()
            } else {
                cs@
            },
            value <= 65535,
            value == digits_value(ds.take(i - start)),
            forall|k: int| 0 <= k < i - start ==> is_ascii_digit(#[trigger] ds[k]),
        decreases cs@.len() - i,
    {
        let c = cs[i];
        assert(ds[i - start] == c);
        if !('0' <= c && c <= '9') {
            assert(!is_ascii_digit(ds[i - start]));
            assert(!is_number(ds));
            return None;
        }
        let d = (c as u32) - 48;
        assert(ds.take(i + 1 - start).drop_last() =~= ds.take(i - start));
        assert(digits_value(ds.take(i + 1 - start)) == digits_value(ds.take(i - start)) * 10 + d);
        if value > 6553 || (value == 6553 && d > 5) {
            proof {
                assert(digits_value(ds.take(i + 1 - start)) > 65535);
                if is_number(ds) {
                    crate::links::lemma_digits_value_grows(ds, i + 1 - start);
                    assert(digits_value(ds) > 65535);
                }
            }
            return None;
        }
        value = value * 10 + d;
        i = i + 1;
    }
    assert(ds.take(cs@.len() - start) =~= ds);
    Some(value as u16)
}

/// The address a pairing code carries, from the transport, what the field
/// holds (`field`), this machine's LAN address and hostname, the daemon's
/// port, the relay port field (`remote_port`) and the tunnel.
///
/// Direct: the field's host (scheme stripped), or the LAN address when the
/// field is blank and it is not blank, or the hostname; a host that names
/// a port (a `:` outside brackets) keeps it, any other gets the daemon's
/// port, over `ws://`. Tailscale: the name with the daemon's port over
/// `wss://`. SSH relay: the host with the relay port (1 to 65535) over
/// `wss://`. Cloudflare: the tunnel's own address once it is ready.
pub open spec fn qr_address_of(
    transport: HostKind,
    field: Seq<char>,
    lan_address: Option<Seq<char>>,
    hostname: Seq<char>,
    port: u16,
    remote_port: Seq<char>,
    tunnel: TunnelStatus,
) -> Result<Seq<char>, QrAddressError> {
    let raw = trim(field);
    match transport {
        HostKind::Direct => {
            let host = if raw.len() == 0 {
                match lan_address {
                    Some(a) => if trim(a).len() > 0 {
                        a
                    } else {
                        hostname
                    },
                    None => hostname,
                }
            } else {
                stripped_host(raw)
            };
            if host.len() == 0 {
                Err(QrAddressError::NeedDirectHost)
            } else if host.contains(':') && !(host[0] == '[') {
                Ok("ws://"@ + host)
            } else {
                Ok("ws://"@ + host + ":"@ + decimal(port as nat))
            }
        },
        HostKind::Tailscale => if raw.len() == 0 {
            Err(QrAddressError::NeedName)
        } else {
            Ok("wss://"@ + stripped_host(raw) + ":"@ + decimal(port as nat))
        },
        HostKind::SshRelay => if raw.len() == 0 {
            Err(QrAddressError::NeedHost)
        } else {
            match parsed_port(trim(remote_port)) {
                Some(p) => if p == 0 {
                    Err(QrAddressError::NeedPort)
                } else {
                    Ok("wss://"@ + stripped_host(raw) + ":"@ + decimal(p))
                },
                None => Err(QrAddressError::NeedPort),
            }
        },
        HostKind::Cloudflare => match tunnel {
            TunnelStatus::Missing => Err(QrAddressError::NeedsTunnel),
            TunnelStatus::Busy => Err(QrAddressError::TunnelStarting),
            TunnelStatus::Ready(address) => Ok(address@),
            TunnelStatus::Starting => Err(QrAddressError::TunnelStarting),
            TunnelStatus::Failed(error) => Err(QrAddressError::TunnelFailed(error)),
            TunnelStatus::Stopped => Err(QrAddressError::NeedsTunnel),
            TunnelStatus::Idle => Err(QrAddressError::NeedsTunnel),
        },
    }
}

/// A trimmed copy of `s`.
fn trimmed(s: &str) -> (r: String)
    ensures
        r@ == trim(s@),
{
    let cs = chars_of(s);
    let (a, b) = trim_bounds(&cs, 0, cs.len());
    assert(cs@.subrange(0, cs@.len() as int) =~= cs@);
    string_from_char_range(&cs, a, b)
}

/// The address a pairing code carries (see [`qr_address_of`]).
pub fn daemon_qr_address(
    transport: HostKind,
    field: &str,
    lan_address: Option<&str>,
    hostname: &str,
    port: u16,
    remote_port: &str,
    tunnel: TunnelStatus,
) -> (r: Result<String, QrAddressError>)
    ensures
        match r {
            Ok(a) => qr_address_of(
                transport,
                field@,
                match lan_address {
                    Some(l) => Some(l@),
                    None => None,
                },
                hostname@,
                port,
                remote_port@,
                tunnel,
            ) == Ok::<Seq<char>, QrAddressError>(a@),
            Err(e) => qr_address_of(
                transport,
                field@,
                match lan_address {
                    Some(l) => Some(l@),
                    None => None,
                },
                hostname@,
                port,
                remote_port@,
                tunnel,
            ) == Err::<Seq<char>, QrAddressError>(e),
        },
{
    let raw = trimmed(field);
    match transport {
        HostKind::Direct => {
            let host = if raw.as_str().is_empty() {
                match lan_address {
                    Some(candidate) => {
                        if trimmed(candidate).as_str().is_empty() {
                            hostname.to_owned()
                        } else {
                            candidate.to_owned()
                        }
                    },
                    None => hostname.to_owned(),
                }
            } else {
                strip_scheme(raw.as_str())
            };
            let hcs = chars_of(host.as_str());
            if hcs.len() == 0 {
                return Err(QrAddressError::NeedDirectHost);
            }
            let mut has_colon = false;
            let mut i: usize = 0;
            while i < hcs.len()
                invariant
                    i <= hcs@.len(),
                    has_colon == (exists|k: int| 0 <= k < i && hcs@[k] == ':'),
                decreases hcs@.len() - i,
            {
                if hcs[i] == ':' {
                    has_colon = true;
                }
                i = i + 1;
            }
            assert(has_colon == host@.contains(':'));
            let mut address = "ws://".to_owned();
            address.append(host.as_str());
            if !(has_colon && hcs[0] != '[') {
                address.append(":");
                push_decimal(&mut address, port as usize);
            }
            Ok(address)
        },
        HostKind::Tailscale => {
            if raw.as_str().is_empty() {
                return Err(QrAddressError::NeedName);
            }
            let mut address = "wss://".to_owned();
            let host = strip_scheme(raw.as_str());
            address.append(host.as_str());
            address.append(":");
            push_decimal(&mut address, port as usize);
            Ok(address)
        },
        HostKind::SshRelay => {
            if raw.as_str().is_empty() {
                return Err(QrAddressError::NeedHost);
            }
            let host = strip_scheme(raw.as_str());
            let port_text = trimmed(remote_port);
            match parse_port(port_text.as_str()) {
                Some(p) => {
                    if p == 0 {
                        return Err(QrAddressError::NeedPort);
                    }
                    let mut address = "wss://".to_owned();
                    address.append(host.as_str());
                    address.append(":");
                    push_decimal(&mut address, p as usize);
                    Ok(address)
                },
                None => Err(QrAddressError::NeedPort),
            }
        },
        HostKind::Cloudflare => match tunnel {
            TunnelStatus::Missing => Err(QrAddressError::NeedsTunnel),
            TunnelStatus::Busy => Err(QrAddressError::TunnelStarting),
            TunnelStatus::Ready(address) => Ok(address),
            TunnelStatus::Starting => Err(QrAddressError::TunnelStarting),
            TunnelStatus::Failed(error) => Err(QrAddressError::TunnelFailed(error)),
            TunnelStatus::Stopped => Err(QrAddressError::NeedsTunnel),
            TunnelStatus::Idle => Err(QrAddressError::NeedsTunnel),
        },
    }
}

// ---------------------------------------------------------------------------
// Exposing the daemon
// ---------------------------------------------------------------------------
/// How the daemon is exposed to other devices.
#[derive(Debug)]
pub struct DaemonExposure {
    pub enabled: bool,
    pub port: u16,
    pub allowed_origins: Vec<String>,
    pub token: String,
}

/// The strings of a list, by their characters.
pub open spec fn texts(v: Seq<String>) -> Seq<Seq<char>> {
    v.map_values(|s: String| s@)
}

/// Two exposures that ask for the same thing.
pub open spec fn same_exposure(a: DaemonExposure, b: DaemonExposure) -> bool {
    &&& a.enabled == b.enabled
    &&& a.port == b.port
    &&& texts(a.allowed_origins@) == texts(b.allowed_origins@)
    &&& a.token@ == b.token@
}

/// Why typed exposure fields are refused.
#[derive(Debug, PartialEq, Eq)]
pub enum ExposureFieldsError {
    /// The port is not a number from 1 to 65535.
    InvalidPort,
}

/// The origins as typed: each trimmed, the blank ones left out.
pub open spec fn typed_origins(fields: Seq<String>) -> Seq<Seq<char>>
    decreases fields.len(),
{
    if fields.len() == 0 {
        seq![]
    } else {
        let t = trim(fields.last()@);
        typed_origins(fields.drop_last()) + if t.len() > 0 {
            seq![t]
        } else {
            seq![]
        }
    }
}

/// The port and origins a settings form holds: the port trimmed and read
/// as a number from 1 to 65535, the origins trimmed with the blank ones
/// left out.
pub fn daemon_exposure_from_fields(port: &str, origins: &[String]) -> (r: Result<(u16, Vec<String>), ExposureFieldsError>)
    ensures
        match r {
            Ok((p, os)) => parsed_port(trim(port@)) == Some(p as nat) && p != 0 && texts(os@) == typed_origins(origins@),
            Err(e) => e == ExposureFieldsError::InvalidPort && (parsed_port(trim(port@)) is None || parsed_port(trim(port@)) == Some(0nat)),
        },
{
    let cs = chars_of(port);
    let (i, j) = trim_bounds(&cs, 0, cs.len());
    assert(cs@.subrange(0, cs@.len() as int) =~= cs@);
    let trimmed = string_from_char_range(&cs, i, j);
    let p = match parse_port(trimmed.as_str()) {
        Some(p) => p,
        None => {
            return Err(ExposureFieldsError::InvalidPort);
        },
    };
    if p == 0 {
        return Err(ExposureFieldsError::InvalidPort);
    }
    let mut kept: Vec<String> = Vec::new();
    let mut k: usize = 0;
    while k < origins.len()
        invariant
            k <= origins@.len(),
            texts(kept@) == typed_origins(origins@.take(k as int)),
        decreases origins@.len() - k,
    {
        let ocs = chars_of(origins[k].as_str());
        let (a, b) = trim_bounds(&ocs, 0, ocs.len());
        assert(ocs@.subrange(0, ocs@.len() as int) =~= ocs@);
        let ghost before = kept@;
        if b > a {
            kept.push(string_from_char_range(&ocs, a, b));
        }
        proof {
            assert(origins@.take(k + 1).drop_last() =~= origins@.take(k as int));
            assert(origins@.take(k + 1).last() == origins@[k as int]);
            assert(texts(kept@) =~= typed_origins(origins@.take(k + 1)));
        }
        k = k + 1;
    }
    assert(origins@.take(origins@.len() as int) =~= origins@);
    Ok((p, kept))
}

/// Whether the form's fields differ from the exposure in force: they do
/// when they cannot be read, or ask for another port or other origins.
pub fn daemon_exposure_fields_dirty(
    fields: &Result<(u16, Vec<String>), ExposureFieldsError>,
    current: &DaemonExposure,
) -> (r: bool)
    ensures
        r == match fields {
            Ok((p, os)) => *p != current.port || texts(os@) != texts(current.allowed_origins@),
            Err(_) => true,
        },
{
    match fields {
        Ok((p, os)) => *p != current.port || !same_texts(os, &current.allowed_origins),
        Err(_) => true,
    }
}

/// Whether two lists hold the same strings in the same order.
fn same_texts(a: &Vec<String>, b: &Vec<String>) -> (r: bool)
    ensures
        r == (texts(a@) == texts(b@)),
{
    if a.len() != b.len() {
        proof {
            assert(texts(a@).len() != texts(b@).len());
        }
        return false;
    }
    let mut i: usize = 0;
    while i < a.len()
        invariant
            i <= a@.len(),
            a@.len() == b@.len(),
            forall|j: int| 0 <= j < i ==> a@[j]@ == b@[j]@,
        decreases a@.len() - i,
    {
        if a[i] != b[i] {
            proof {
                assert(texts(a@)[i as int] != texts(b@)[i as int]);
            }
            return false;
        }
        i = i + 1;
    }
    assert(texts(a@) =~= texts(b@));
    true
}

/// What applying new exposure settings comes to.
#[derive(Debug, PartialEq, Eq)]
pub enum ExposureChange {
    /// Nothing: a change is still being applied, or nothing differs.
    Unchanged,
    /// The daemon runs elsewhere and is configured there.
    RemoteDaemon,
    /// Tasks are running; they must stop first.
    StopActiveTasks,
    /// Save the settings; the daemon stays as it is.
    Save,
    /// Restart the daemon with the settings, then save them.
    Restart,
}

/// What applying `requested` over `current` comes to: nothing while a
/// change is pending or when nothing differs; refused for a remote daemon
/// or while any session is running; a restart when exposure is on before
/// or after, a plain save otherwise.
pub fn apply_daemon_exposure(
    pending: bool,
    current: &DaemonExposure,
    requested: &DaemonExposure,
    remote: bool,
    tasks_running: bool,
) -> (r: ExposureChange)
    ensures
        r == if pending || same_exposure(*current, *requested) {
            ExposureChange::Unchanged
        } else if remote {
            ExposureChange::RemoteDaemon
        } else if tasks_running {
            ExposureChange::StopActiveTasks
        } else if current.enabled || requested.enabled {
            ExposureChange::Restart
        } else {
            ExposureChange::Save
        },
{
    let same = current.enabled == requested.enabled && current.port == requested.port && same_texts(
        &current.allowed_origins,
        &requested.allowed_origins,
    ) && current.token == requested.token;
    if pending || same {
        ExposureChange::Unchanged
    } else if remote {
        ExposureChange::RemoteDaemon
    } else if tasks_running {
        ExposureChange::StopActiveTasks
    } else if current.enabled || requested.enabled {
        ExposureChange::Restart
    } else {
        ExposureChange::Save
    }
}

// ---------------------------------------------------------------------------
// Transports
// ---------------------------------------------------------------------------
/// How the host list names a transport.
pub open spec fn transport_label(kind: HostKind) -> Seq<char> {
    match kind {
        HostKind::Direct => "Direct"@,
        HostKind::Tailscale => "Tailscale"@,
        HostKind::Cloudflare => "Cloudflare Tunnel"@,
        HostKind::SshRelay => "SSH relay"@,
    }
}

/// The name of a transport (see [`transport_label`]).
pub fn host_transport_label(kind: HostKind) -> (r: String)
    ensures
        r@ == transport_label(kind),
{
    match kind {
        HostKind::Direct => "Direct".to_string(),
        HostKind::Tailscale => "Tailscale".to_string(),
        HostKind::Cloudflare => "Cloudflare Tunnel".to_string(),
        HostKind::SshRelay => "SSH relay".to_string(),
    }
}

/// What a host row shows of its tunnel: a word and whether it is healthy,
/// for a tunnel that is up, starting or failed; nothing otherwise (none
/// started, busy, stopped or idle).
pub fn host_transport_status(status: &TunnelStatus) -> (r: Option<(String, bool)>)
    ensures
        match status {
            TunnelStatus::Ready(_) => r matches Some((s, true)) && s@ == "Connected"@,
            TunnelStatus::Starting => r matches Some((s, true)) && s@ == "Starting"@,
            TunnelStatus::Failed(_) => r matches Some((s, false)) && s@ == "Failed"@,
            _ => r is None,
        },
{
    match status {
        TunnelStatus::Ready(_) => Some(("Connected".to_string(), true)),
        TunnelStatus::Starting => Some(("Starting".to_string(), true)),
        TunnelStatus::Failed(_) => Some(("Failed".to_string(), false)),
        _ => None,
    }
}

/// The exposure that switching exposure on or off asks for: off keeps the
/// settings in force with exposure off; on takes the port and origins the
/// form holds, with the token in force, and fails as the form does.
pub fn set_daemon_exposure_enabled(
    enabled: bool,
    fields: &Result<(u16, Vec<String>), ExposureFieldsError>,
    current: &DaemonExposure,
) -> (r: Result<DaemonExposure, ExposureFieldsError>)
    ensures
        !enabled ==> (r matches Ok(e) && !e.enabled && e.port == current.port && texts(e.allowed_origins@)
            == texts(current.allowed_origins@) && e.token@ == current.token@),
        enabled ==> match fields {
            Ok((p, os)) => (r matches Ok(e) && e.enabled && e.port == *p && texts(e.allowed_origins@) == texts(
                os@,
            ) && e.token@ == current.token@),
            Err(f) => r == Err::<DaemonExposure, ExposureFieldsError>(*f),
        },
{
    if !enabled {
        return Ok(DaemonExposure {
            enabled: false,
            port: current.port,
            allowed_origins: copy_texts(&current.allowed_origins),
            token: current.token.clone(),
        });
    }
    match fields {
        Ok((p, os)) => Ok(DaemonExposure {
            enabled: true,
            port: *p,
            allowed_origins: copy_texts(os),
            token: current.token.clone(),
        }),
        Err(ExposureFieldsError::InvalidPort) => Err(ExposureFieldsError::InvalidPort),
    }
}

/// A copy of a list of strings.
fn copy_texts(v: &Vec<String>) -> (r: Vec<String>)
    ensures
        texts(r@) == texts(v@),
{
    let mut r: Vec<String> = Vec::new();
    let mut i: usize = 0;
    while i < v.len()
        invariant
            i <= v@.len(),
            r@.len() == i,
            texts(r@) == texts(v@.take(i as int)),
        decreases v@.len() - i,
    {
        let ghost prev = r@;
        r.push(v[i].clone());
        assert forall|k: int| 0 <= k < i + 1 implies #[trigger] texts(r@)[k] == texts(v@.take(i + 1))[k] by {
            if k < i {
                assert(r@[k] == prev[k]);
                assert(texts(prev)[k] == texts(v@.take(i as int))[k]);
            }
        }
        assert(texts(r@) =~= texts(v@.take(i + 1)));
        i = i + 1;
    }
    assert(v@.take(v@.len() as int) =~= v@);
    r
}

/// Adds an empty allowed-origin field to the form.
pub fn add_daemon_origin(origins: &mut Vec<String>)
    ensures
        texts(final(origins)@) == texts(old(origins)@).push(Seq::<char>::empty()),
{
    let ghost before = origins@;
    let empty = String::new();
    assert(empty@ == Seq::<char>::empty());
    origins.push(empty);
    assert(origins@ == before.push(empty));
    assert(texts(origins@) =~= texts(before).push(Seq::<char>::empty()));
}

/// Removes the allowed-origin field at `index`, if there is one; says
/// whether one was removed.
pub fn remove_daemon_origin(origins: &mut Vec<String>, index: usize) -> (removed: bool)
    ensures
        removed == (index < old(origins)@.len()),
        removed ==> final(origins)@ == old(origins)@.remove(index as int),
        !removed ==> final(origins)@ == old(origins)@,
{
    if index < origins.len() {
        origins.remove(index);
        true
    } else {
        false
    }
}


/// A host pasted with one of the schemes in front loses exactly that
/// scheme: for any host `h` that does not end in whitespace or `/`,
/// stripping `wss://h`, `ws://h`, `https://h` or `http://h` gives `h`.
pub proof fn law_pasted_scheme_is_stripped(h: Seq<char>)
    requires
        h.len() == 0 || (!is_whitespace(h.last()) && h.last() != '/'),
    ensures
        stripped_host("wss://"@ + h) == h,
        stripped_host("ws://"@ + h) == h,
        stripped_host("https://"@ + h) == h,
        stripped_host("http://"@ + h) == h,
{
    reveal_strlit("wss://");
    reveal_strlit("ws://");
    reveal_strlit("https://");
    reveal_strlit("http://");
    lemma_scheme_stripped("wss://"@, h);
    lemma_scheme_stripped("ws://"@, h);
    lemma_scheme_stripped("https://"@, h);
    lemma_scheme_stripped("http://"@, h);
    assert(trim_end_slash(h) == h);
    let a = "wss://"@ + h;
    let b = "ws://"@ + h;
    let c = "https://"@ + h;
    let d = "http://"@ + h;
    assert(a.take(6) =~= "wss://"@);
    assert(a.skip(6) =~= h);
    assert(b[2] == ':' && "wss://"@[2] == 's');
    assert(!has_prefix(b, "wss://"@)) by {
        if has_prefix(b, "wss://"@) {
            assert(b.take(6)[2] == "wss://"@[2]);
        }
    }
    assert(b.take(5) =~= "ws://"@);
    assert(b.skip(5) =~= h);
    assert(!has_prefix(c, "wss://"@)) by {
        if has_prefix(c, "wss://"@) {
            assert(c.take(6)[0] == "wss://"@[0]);
        }
    }
    assert(!has_prefix(c, "ws://"@)) by {
        if has_prefix(c, "ws://"@) {
            assert(c.take(5)[0] == "ws://"@[0]);
        }
    }
    assert(c.take(8) =~= "https://"@);
    assert(c.skip(8) =~= h);
    assert(!has_prefix(d, "wss://"@)) by {
        if has_prefix(d, "wss://"@) {
            assert(d.take(6)[0] == "wss://"@[0]);
        }
    }
    assert(!has_prefix(d, "ws://"@)) by {
        if has_prefix(d, "ws://"@) {
            assert(d.take(5)[0] == "ws://"@[0]);
        }
    }
    assert(!has_prefix(d, "https://"@)) by {
        if has_prefix(d, "https://"@) {
            assert(d.take(8)[4] == "https://"@[4]);
        }
    }
    assert(d.take(7) =~= "http://"@);
    assert(d.skip(7) =~= h);
}

/// A scheme in front of a host that ends in neither whitespace nor `/` is
/// left as it is by trimming.
proof fn lemma_scheme_stripped(p: Seq<char>, h: Seq<char>)
    requires
        p.len() > 0,
        !is_whitespace(p[0]),
        p.last() == '/',
        h.len() == 0 || (!is_whitespace(h.last()) && h.last() != '/'),
    ensures
        trim(p + h) == p + h,
        h.len() == 0 || trim_end_slash(h) == h,
{
    let x = p + h;
    assert(x[0] == p[0]);
    assert(trim_start(x) == x);
    if h.len() == 0 {
        assert(x =~= p);
        assert(!is_whitespace('/'));
    } else {
        assert(x.last() == h.last());
    }
    assert(trim_end(x) == x);
}
} // verus!
