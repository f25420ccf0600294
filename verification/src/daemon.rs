//! Starting the desktop's daemon: whether to connect to one named in the
//! environment or to spawn one, where a local one listens, and the host
//! name settings show.
use vstd::prelude::*;
use crate::review_lines::{decimal, push_decimal};
use crate::text::{chars_of, string_from_char_range, trim, trim_bounds};

verus! {

/// How the daemon is reached.
#[derive(Debug, PartialEq, Eq)]
pub enum DaemonLaunch {
    /// Connect to the daemon at `address`, authenticating with `token`.
    Connect { address: String, token: String },
    /// Spawn a daemon of our own.
    Spawn,
}

/// Why the environment names no usable daemon.
#[derive(Debug, PartialEq, Eq)]
pub enum DaemonEnvError {
    /// An address is set without a token.
    TokenMissing,
    /// A token is set without an address.
    AddressMissing,
}

/// An address counts when it is not blank; a token when it is not empty.
pub open spec fn launch_of(address: Option<Seq<char>>, token: Option<Seq<char>>) -> Result<Option<(Seq<char>, Seq<char>)>, DaemonEnvError> {
    let a = match address {
        Some(a) => if trim(a).len() > 0 {
            Some(trim(a))
        } else {
            None
        },
        None => None,
    };
    let t = match token {
        Some(t) => if t.len() > 0 {
            Some(t)
        } else {
            None
        },
        None => None,
    };
    match (a, t) {
        (Some(a), Some(t)) => Ok(Some((a, t))),
        (Some(_), None) => Err(DaemonEnvError::TokenMissing),
        (None, Some(_)) => Err(DaemonEnvError::AddressMissing),
        (None, None) => Ok(None),
    }
}

/// Decides how to reach the daemon from the address and token the
/// environment sets, if any (see [`launch_of`]): both connect, to the
/// trimmed address; neither spawns; one alone is an error.
pub fn daemon_launch(address: Option<&str>, token: Option<&str>) -> (r: Result<DaemonLaunch, DaemonEnvError>)
    ensures
        match launch_of(
            match address {
                Some(a) => Some(a@),
                None => None,
            },
            match token {
                Some(t) => Some(t@),
                None => None,
            },
        ) {
            Ok(Some((a, t))) => r matches Ok(DaemonLaunch::Connect { address: ra, token: rt }) && ra@ == a && rt@ == t,
            Ok(None) => r == Ok::<DaemonLaunch, DaemonEnvError>(DaemonLaunch::Spawn),
            Err(e) => r == Err::<DaemonLaunch, DaemonEnvError>(e),
        },
{
    let trimmed = match address {
        Some(a) => {
            let cs = chars_of(a);
            let (i, j) = trim_bounds(&cs, 0, cs.len());
            assert(cs@.subrange(0, cs@.len() as int) =~= cs@);
            if j > i {
                Some(string_from_char_range(&cs, i, j))
            } else {
                None
            }
        },
        None => None,
    };
    let token = match token {
        Some(t) => if t.is_empty() {
            None
        } else {
            Some(t.to_owned())
        },
        None => None,
    };
    match (trimmed, token) {
        (Some(address), Some(token)) => Ok(DaemonLaunch::Connect { address, token }),
        (Some(_), None) => Err(DaemonEnvError::TokenMissing),
        (None, Some(_)) => Err(DaemonEnvError::AddressMissing),
        (None, None) => Ok(DaemonLaunch::Spawn),
    }
}

/// Where an exposed daemon of this machine listens on `port`.
pub fn local_daemon_address(port: u16) -> (r: String)
    ensures
        r@ == "ws://127.0.0.1:"@ + decimal(port as nat),
{
    let mut address = "ws://127.0.0.1:".to_string();
    push_decimal(&mut address, port as usize);
    address
}

/// What `String::from_utf8_lossy` gives: the bytes decoded, each invalid
/// sequence replaced by U+FFFD.
pub uninterp spec fn lossy_utf8(bytes: Seq<u8>) -> Seq<char>;

/// `String::from_utf8_lossy`. Its result is named [`lossy_utf8`]; how
/// invalid sequences are cut is not restated.
#[verifier::external_body]
fn decode_lossy(bytes: &[u8]) -> (r: String)
    ensures
        r@ == lossy_utf8(bytes@),
{
    String::from_utf8_lossy(bytes).into_owned()
}

/// The bytes before the first NUL (all of them without one).
pub open spec fn before_nul(b: Seq<u8>) -> Seq<u8>
    decreases b.len(),
{
    if b.len() == 0 {
        b
    } else if b[0] == 0 {
        seq![]
    } else {
        seq![b[0]] + before_nul(b.drop_first())
    }
}

proof fn lemma_before_nul(b: Seq<u8>, n: int)
    requires
        0 <= n <= b.len(),
        forall|k: int| 0 <= k < n ==> b[k] != 0,
        n == b.len() || b[n] == 0,
    ensures
        before_nul(b) == b.take(n),
    decreases b.len(),
{
    if b.len() > 0 && n > 0 {
        lemma_before_nul(b.drop_first(), n - 1);
        assert(seq![b[0]] + b.drop_first().take(n - 1) =~= b.take(n));
    } else if b.len() > 0 {
        assert(b.take(0) =~= Seq::<u8>::empty());
    }
}

/// The host name a `gethostname` buffer holds: the text before its NUL,
/// decoded and trimmed, when that is not blank.
pub fn hostname_from_buffer(buffer: &[u8]) -> (r: Option<String>)
    ensures
        match r {
            Some(h) => h@ == trim(lossy_utf8(before_nul(buffer@))) && h@.len() > 0,
            None => trim(lossy_utf8(before_nul(buffer@))).len() == 0,
        },
{
    let mut n: usize = 0;
    while n < buffer.len() && buffer[n] != 0
        invariant
            n <= buffer@.len(),
            forall|k: int| 0 <= k < n ==> buffer@[k] != 0,
        decreases buffer@.len() - n,
    {
        n = n + 1;
    }
    proof {
        lemma_before_nul(buffer@, n as int);
    }
    let mut head: Vec<u8> = Vec::new();
    let mut k: usize = 0;
    while k < n
        invariant
            k <= n <= buffer@.len(),
            head@ == buffer@.take(k as int),
        decreases n - k,
    {
        head.push(buffer[k]);
        assert(head@ =~= buffer@.take(k + 1));
        k = k + 1;
    }
    let text = decode_lossy(head.as_slice());
    named(text.as_str())
}

/// `text` trimmed, when that is not blank.
fn named(text: &str) -> (r: Option<String>)
    ensures
        match r {
            Some(h) => h@ == trim(text@) && h@.len() > 0,
            None => trim(text@).len() == 0,
        },
{
    let cs = chars_of(text);
    let (i, j) = trim_bounds(&cs, 0, cs.len());
    assert(cs@.subrange(0, cs@.len() as int) =~= cs@);
    if j > i {
        Some(string_from_char_range(&cs, i, j))
    } else {
        None
    }
}

/// The first of the candidates that is not blank, trimmed.
pub open spec fn first_named(candidates: Seq<Option<String>>) -> Option<Seq<char>>
    decreases candidates.len(),
{
    if candidates.len() == 0 {
        None
    } else {
        match candidates[0] {
            Some(c) => if trim(c@).len() > 0 {
                Some(trim(c@))
            } else {
                first_named(candidates.drop_first())
            },
            None => first_named(candidates.drop_first()),
        }
    }
}

/// The host name from the environment's candidates (`COMPUTERNAME`, then
/// `HOSTNAME`), when the system gave none (see [`first_named`]).
pub fn hostname_from_environment(candidates: &[Option<String>]) -> (r: Option<String>)
    ensures
        match r {
            Some(h) => first_named(candidates@) == Some(h@),
            None => first_named(candidates@) is None,
        },
{
    let mut k: usize = 0;
    assert(candidates@.skip(0) =~= candidates@);
    while k < candidates.len()
        invariant
            k <= candidates@.len(),
            first_named(candidates@) == first_named(candidates@.skip(k as int)),
        decreases candidates@.len() - k,
    {
        proof {
            assert(candidates@.skip(k as int).drop_first() =~= candidates@.skip(k + 1));
            assert(candidates@.skip(k as int)[0] == candidates@[k as int]);
        }
        if let Some(c) = &candidates[k] {
            if let Some(h) = named(c.as_str()) {
                return Some(h);
            }
        }
        k = k + 1;
    }
    None
}

/// A way of getting a daemon of our own running.
#[derive(Debug, PartialEq, Eq)]
pub enum DaemonStartAttempt {
    /// Spawn the daemon with the saved exposure settings.
    SpawnConfigured,
    /// Connect to an exposed daemon already listening on this machine (one
    /// a previous run left behind), with the saved token.
    ReuseExposed { address: String, token: String },
    /// Spawn the daemon listening privately, exposure off (development
    /// builds only).
    SpawnPrivate,
}

/// What to try after `failed` did not work (`None`: nothing tried yet):
/// first spawn with the saved settings; when that fails with exposure on,
/// reuse the exposed daemon on its port; when that fails too, in a
/// development build, spawn one privately. `None` means give up with the
/// first spawn's error (or, after the private spawn, its own).
pub fn daemon_start_next(
    failed: Option<&DaemonStartAttempt>,
    exposure_enabled: bool,
    port: u16,
    token: &str,
    debug: bool,
) -> (r: Option<DaemonStartAttempt>)
    ensures
        match failed {
            None => r == Some(DaemonStartAttempt::SpawnConfigured),
            Some(DaemonStartAttempt::SpawnConfigured) => if exposure_enabled {
                r matches Some(DaemonStartAttempt::ReuseExposed { address: a, token: t }) && a@
                    == "ws://127.0.0.1:"@ + decimal(port as nat) && t@ == token@
            } else {
                r is None
            },
            Some(DaemonStartAttempt::ReuseExposed { .. }) => if debug {
                r == Some(DaemonStartAttempt::SpawnPrivate)
            } else {
                r is None
            },
            Some(DaemonStartAttempt::SpawnPrivate) => r is None,
        },
{
    match failed {
        None => Some(DaemonStartAttempt::SpawnConfigured),
        Some(DaemonStartAttempt::SpawnConfigured) => if exposure_enabled {
            Some(DaemonStartAttempt::ReuseExposed { address: local_daemon_address(port), token: token.to_owned() })
        } else {
            None
        },
        Some(DaemonStartAttempt::ReuseExposed { .. }) => if debug {
            Some(DaemonStartAttempt::SpawnPrivate)
        } else {
            None
        },
        Some(DaemonStartAttempt::SpawnPrivate) => None,
    }
}

} // verus!
