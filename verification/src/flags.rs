//! The ICE servers named on the command line.
//!
//! A STUN server is given by its URL. A TURN server is given as
//! `NAME|URL|USER|CRED`: the first three bars separate the fields, and the
//! credential is whatever follows the third, bars included.

use vstd::prelude::*;
use crate::messages::IceServerView;
use crate::names::names;
use crate::service::config_views;
use crate::state::IceServerConfig;

verus! {

/// The number of bars in `s`.
pub open spec fn bars(s: Seq<char>) -> nat
    decreases s.len(),
{
    if s.len() == 0 {
        0
    } else if s.last() == '|' {
        bars(s.drop_last()) + 1
    } else {
        bars(s.drop_last())
    }
}

/// Whether `s` holds no bar.
pub open spec fn no_bar(s: Seq<char>) -> bool {
    forall|i: int| 0 <= i < s.len() ==> s[i] != '|'
}

/// Whether `s` reads as the TURN server `v`: its four fields, in the
/// order name, URL, user, credential, with a bar after each of the first
/// three, which hold no bar themselves.
pub open spec fn reads_as(s: Seq<char>, v: IceServerView) -> bool {
    &&& s == v.name + seq!['|'] + v.url + seq!['|'] + v.username + seq!['|'] + v.credential
    &&& no_bar(v.name)
    &&& no_bar(v.url)
    &&& no_bar(v.username)
}

/// The TURN server that `s` reads as, where it holds three bars or more.
pub open spec fn turn_server(s: Seq<char>) -> IceServerView {
    choose|v: IceServerView| reads_as(s, v)
}

/// The STUN server at `url`: it has no credentials and no name.
pub open spec fn stun_server(url: Seq<char>) -> IceServerView {
    IceServerView { url, username: Seq::empty(), credential: Seq::empty(), name: Seq::empty() }
}

/// The STUN servers at `urls`, in order.
pub open spec fn stun_servers(urls: Seq<Seq<char>>) -> Seq<IceServerView> {
    Seq::new(urls.len(), |i: int| stun_server(urls[i]))
}

/// The TURN servers that the well-formed values of `specs` name, in order.
pub open spec fn turn_servers(specs: Seq<Seq<char>>) -> Seq<IceServerView>
    decreases specs.len(),
{
    if specs.len() == 0 {
        Seq::empty()
    } else if bars(specs.last()) >= 3 {
        turn_servers(specs.drop_last()).push(turn_server(specs.last()))
    } else {
        turn_servers(specs.drop_last())
    }
}

/// The values of `specs` that are malformed, in order: those with fewer
/// than three bars.
pub open spec fn malformed(specs: Seq<Seq<char>>) -> Seq<Seq<char>>
    decreases specs.len(),
{
    if specs.len() == 0 {
        Seq::empty()
    } else if bars(specs.last()) >= 3 {
        malformed(specs.drop_last())
    } else {
        malformed(specs.drop_last()).push(specs.last())
    }
}

proof fn lemma_bars_push(s: Seq<char>, c: char)
    ensures
        bars(s.push(c)) == bars(s) + if c == '|' {
            1nat
        } else {
            0nat
        },
{
    assert(s.push(c).drop_last() =~= s);
}

proof fn lemma_no_bar_prefix(a: Seq<char>, b: Seq<char>, s: Seq<char>)
    requires
        no_bar(a),
        no_bar(b),
        (a + seq!['|']).is_prefix_of(s),
        (b + seq!['|']).is_prefix_of(s),
    ensures
        a == b,
{
    let x = a + seq!['|'];
    let y = b + seq!['|'];
    assert(x[a.len() as int] == '|');
    assert(y[b.len() as int] == '|');
    if a.len() < b.len() {
        assert(s[a.len() as int] == x[a.len() as int]);
        assert(s[a.len() as int] == y[a.len() as int]);
        assert(y[a.len() as int] == b[a.len() as int]);
    } else if b.len() < a.len() {
        assert(s[b.len() as int] == y[b.len() as int]);
        assert(s[b.len() as int] == x[b.len() as int]);
        assert(x[b.len() as int] == a[b.len() as int]);
    } else {
        assert forall|i: int| 0 <= i < a.len() implies a[i] == b[i] by {
            assert(x[i] == s[i]);
            assert(y[i] == s[i]);
        }
        assert(a =~= b);
    }
}

/// A value reads as one TURN server at most.
pub proof fn lemma_reads_as_unique(s: Seq<char>, v: IceServerView, w: IceServerView)
    requires
        reads_as(s, v),
        reads_as(s, w),
    ensures
        v == w,
{
    let bar = seq!['|'];
    let v1 = v.url + bar + v.username + bar + v.credential;
    let w1 = w.url + bar + w.username + bar + w.credential;
    assert(s =~= (v.name + bar) + v1);
    assert(s =~= (w.name + bar) + w1);
    lemma_no_bar_prefix(v.name, w.name, s);
    assert(v1 =~= s.skip(v.name.len() as int + 1));
    assert(w1 =~= s.skip(w.name.len() as int + 1));
    let v2 = v.username + bar + v.credential;
    let w2 = w.username + bar + w.credential;
    assert(v1 =~= (v.url + bar) + v2);
    assert(w1 =~= (w.url + bar) + w2);
    lemma_no_bar_prefix(v.url, w.url, v1);
    assert(v2 =~= v1.skip(v.url.len() as int + 1));
    assert(w2 =~= w1.skip(w.url.len() as int + 1));
    assert(v2 =~= (v.username + bar) + v.credential);
    assert(w2 =~= (w.username + bar) + w.credential);
    lemma_no_bar_prefix(v.username, w.username, v2);
    assert(v.credential =~= v2.skip(v.username.len() as int + 1));
    assert(w.credential =~= w2.skip(w.username.len() as int + 1));
}

/// Reads one `--turn` value. `None` for a malformed value: one with fewer
/// than three bars.
pub fn parse_turn_spec(spec: &str) -> (r: Option<IceServerConfig>)
    ensures
        r.is_some() <==> bars(spec@) >= 3,
        r matches Some(config) ==> reads_as(spec@, config@) && config@ == turn_server(spec@),
{
    let n = spec.unicode_len();
    let mut name = String::new();
    let mut url = String::new();
    let mut username = String::new();
    let mut credential = String::new();
    let mut seen: u8 = 0;
    let mut i: usize = 0;
    let ghost bar = seq!['|'];
    while i < n
        invariant
            n == spec@.len(),
            i <= n,
            bar == seq!['|'],
            seen <= 3,
            seen < 3 ==> bars(spec@.take(i as int)) == seen,
            seen == 3 ==> bars(spec@.take(i as int)) >= 3,
            no_bar(name@),
            no_bar(url@),
            no_bar(username@),
            seen == 0 ==> spec@.take(i as int) == name@ && url@.len() == 0 && username@.len() == 0
                && credential@.len() == 0,
            seen == 1 ==> spec@.take(i as int) == name@ + bar + url@ && username@.len() == 0
                && credential@.len() == 0,
            seen == 2 ==> spec@.take(i as int) == name@ + bar + url@ + bar + username@
                && credential@.len() == 0,
            seen == 3 ==> spec@.take(i as int) == name@ + bar + url@ + bar + username@ + bar
                + credential@,
        decreases n - i,
    {
        let c = spec.get_char(i);
        let ghost prefix = spec@.take(i as int);
        proof {
            assert(spec@.take(i as int + 1) =~= prefix.push(c));
            lemma_bars_push(prefix, c);
        }
        if c == '|' && seen < 3 {
            proof {
                if seen == 0 {
                    assert(prefix.push(c) =~= name@ + bar + url@);
                } else if seen == 1 {
                    assert(prefix.push(c) =~= name@ + bar + url@ + bar + username@);
                } else {
                    assert(prefix.push(c) =~= name@ + bar + url@ + bar + username@ + bar
                        + credential@);
                }
            }
            seen += 1;
        } else if seen == 0 {
            name.push(c);
            proof {
                assert(prefix.push(c) =~= name@);
            }
        } else if seen == 1 {
            url.push(c);
            proof {
                assert(prefix.push(c) =~= name@ + bar + url@);
            }
        } else if seen == 2 {
            username.push(c);
            proof {
                assert(prefix.push(c) =~= name@ + bar + url@ + bar + username@);
            }
        } else {
            credential.push(c);
            proof {
                assert(prefix.push(c) =~= name@ + bar + url@ + bar + username@ + bar
                    + credential@);
            }
        }
        i += 1;
    }
    proof {
        assert(spec@.take(i as int) =~= spec@);
    }
    if seen == 3 {
        let config = IceServerConfig { name, url, username, credential };
        proof {
            assert(reads_as(spec@, config@));
            lemma_reads_as_unique(spec@, config@, turn_server(spec@));
        }
        Some(config)
    } else {
        None
    }
}

/// The ICE servers of a command line, and the `--turn` values that were
/// skipped.
#[derive(Debug)]
pub struct IceFlags {
    /// The STUN servers, then the TURN servers of the well-formed values.
    pub servers: Vec<IceServerConfig>,
    /// The malformed `--turn` values, for a warning each.
    pub skipped: Vec<String>,
}

/// Reads the `--stun` and `--turn` values of a command line. A malformed
/// `--turn` value is skipped.
pub fn ice_servers_from_flags(stun: Vec<String>, turn: Vec<String>) -> (r: IceFlags)
    ensures
        config_views(r.servers@) == stun_servers(names(stun@)) + turn_servers(names(turn@)),
        names(r.skipped@) == malformed(names(turn@)),
{
    let mut servers: Vec<IceServerConfig> = Vec::new();
    let mut skipped: Vec<String> = Vec::new();
    let mut i: usize = 0;
    while i < stun.len()
        invariant
            i <= stun.len(),
            config_views(servers@) == stun_servers(names(stun@)).take(i as int),
        decreases stun.len() - i,
    {
        let config = IceServerConfig {
            url: stun[i].clone(),
            username: String::new(),
            credential: String::new(),
            name: String::new(),
        };
        let ghost done = config_views(servers@);
        servers.push(config);
        proof {
            assert(config@ == stun_server(stun@[i as int]@));
            assert(config_views(servers@) =~= done.push(config@));
            assert(config_views(servers@) =~= stun_servers(names(stun@)).take(i as int + 1));
        }
        i += 1;
    }
    proof {
        assert(stun_servers(names(stun@)).take(i as int) =~= stun_servers(names(stun@)));
    }
    let ghost first = config_views(servers@);
    let mut j: usize = 0;
    while j < turn.len()
        invariant
            j <= turn.len(),
            first == stun_servers(names(stun@)),
            config_views(servers@) == first + turn_servers(names(turn@).take(j as int)),
            names(skipped@) == malformed(names(turn@).take(j as int)),
        decreases turn.len() - j,
    {
        let ghost specs = names(turn@).take(j as int + 1);
        proof {
            assert(specs.drop_last() =~= names(turn@).take(j as int));
            assert(specs.last() == turn@[j as int]@);
        }
        match parse_turn_spec(turn[j].as_str()) {
            Some(config) => {
                let ghost done = config_views(servers@);
                servers.push(config);
                proof {
                    assert(config_views(servers@) =~= done.push(config@));
                    assert(config_views(servers@) =~= first + turn_servers(specs));
                }
            },
            None => {
                let ghost done = names(skipped@);
                let value = turn[j].clone();
                skipped.push(value);
                proof {
                    assert(names(skipped@) =~= done.push(turn@[j as int]@));
                }
            },
        }
        j += 1;
    }
    proof {
        assert(names(turn@).take(j as int) =~= names(turn@));
    }
    IceFlags { servers, skipped }
}

} // verus!
