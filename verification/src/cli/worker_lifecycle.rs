//! The worker's system service: its account declaration, which home directories
//! must let the service account through, and how its logs are read.
use vstd::prelude::*;
use crate::path_policy::{components, path_components};
use crate::text::{chars_of, decimal, decimal_chars, push_all, push_str, lex_less, lex_lt, lemma_lex_irreflexive, lemma_lex_transitive, string_of, views};
use crate::order::lemma_lex_total;

verus! {

/// The sysusers declaration of the service account: a system user with no login shell.
pub fn generate_sysusers_conf() -> (r: String)
    ensures
        r@ == "u lao-worker - \"LAO worker service account\" /var/lib/lao-worker /usr/sbin/nologin\n"@,
{
    String::from_str(
        "u lao-worker - \"LAO worker service account\" /var/lib/lao-worker /usr/sbin/nologin\n",
    )
}

/// The systemd unit head, up to the worker's id.
pub open spec fn unit_head() -> Seq<char> {
    "[Unit]\nDescription=LAO model-inference worker ("@
}

/// The unit text between the worker's id and the stop timeout: start ordering and
/// limits, and the service running as the service account with the installed binary
/// and configuration, its token file optional.
pub open spec fn unit_middle() -> Seq<char> {
    ")\nAfter=network-online.target tailscaled.service\nWants=network-online.target\nStartLimitIntervalSec=60\nStartLimitBurst=5\n\n[Service]\nType=simple\nUser=lao-worker\nGroup=lao-worker\nEnvironmentFile=-/etc/lao-worker/worker.env\nExecStart=/opt/lao-worker/bin/lao-cli worker serve --config /etc/lao-worker/lao.toml\nRestart=on-failure\nRestartSec=5\nTimeoutStopSec="@
}

/// The unit text after the stop timeout: hardening (home read-only, not hidden) and
/// the install target.
pub open spec fn unit_tail() -> Seq<char> {
    "\nNoNewPrivileges=true\nProtectSystem=strict\nProtectHome=read-only\nPrivateTmp=true\n\n[Install]\nWantedBy=multi-user.target\n"@
}

/// The systemd unit of the worker service. The stop timeout is the worker's shutdown
/// grace period plus ten seconds.
pub fn generate_unit_file(worker_id: &str, shutdown_grace_seconds: u64) -> (r: String)
    requires
        shutdown_grace_seconds + 10 <= u64::MAX,
    ensures
        r@ == unit_head() + worker_id@ + unit_middle() + decimal((shutdown_grace_seconds + 10) as nat)
            + unit_tail(),
{
    let timeout_stop = shutdown_grace_seconds + 10;
    let mut m = chars_of("[Unit]\nDescription=LAO model-inference worker (");
    push_str(&mut m, worker_id);
    push_str(
        &mut m,
        ")\nAfter=network-online.target tailscaled.service\nWants=network-online.target\nStartLimitIntervalSec=60\nStartLimitBurst=5\n\n[Service]\nType=simple\nUser=lao-worker\nGroup=lao-worker\nEnvironmentFile=-/etc/lao-worker/worker.env\nExecStart=/opt/lao-worker/bin/lao-cli worker serve --config /etc/lao-worker/lao.toml\nRestart=on-failure\nRestartSec=5\nTimeoutStopSec=",
    );
    let t = decimal_chars(timeout_stop);
    push_all(&mut m, &t);
    push_str(
        &mut m,
        "\nNoNewPrivileges=true\nProtectSystem=strict\nProtectHome=read-only\nPrivateTmp=true\n\n[Install]\nWantedBy=multi-user.target\n",
    );
    string_of(m.as_slice())
}

/// The arguments to `journalctl` for the worker's logs: the unit, no pager, the last
/// `lines` lines when given, and following when asked.
pub fn worker_logs_args(follow: bool, lines: Option<u32>) -> (r: Vec<String>)
    ensures
        views(r@) == seq!["-u"@, "lao-worker.service"@, "--no-pager"@] + match lines {
            Some(n) => seq!["-n"@, decimal(n as nat)],
            None => Seq::empty(),
        } + if follow {
            seq!["-f"@]
        } else {
            Seq::empty()
        },
{
    let mut args: Vec<String> = Vec::new();
    args.push(String::from_str("-u"));
    args.push(String::from_str("lao-worker.service"));
    args.push(String::from_str("--no-pager"));
    if let Some(n) = lines {
        args.push(String::from_str("-n"));
        let d = decimal_chars(n as u64);
        args.push(string_of(d.as_slice()));
    }
    if follow {
        args.push(String::from_str("-f"));
    }
    proof {
        let base = seq!["-u"@, "lao-worker.service"@, "--no-pager"@];
        let mid: Seq<Seq<char>> = match lines {
            Some(n) => seq!["-n"@, decimal(n as nat)],
            None => Seq::empty(),
        };
        let tail: Seq<Seq<char>> = if follow {
            seq!["-f"@]
        } else {
            Seq::empty()
        };
        assert(views(args@) =~= base + mid + tail);
    }
    args
}

/// The home directory a path lies in: `/home/<user>` when the path starts with the
/// components `/` and `home` followed by at least one more.
pub open spec fn home_of(p: Seq<char>) -> Option<Seq<char>> {
    let c = components(p);
    if c.len() >= 3 && c[0] == "/"@ && c[1] == "home"@ {
        Some("/home/"@ + c[2])
    } else {
        None
    }
}

/// The paths whose home directories need a grant: the model paths, and the server
/// executable when it is an absolute path.
pub open spec fn acl_candidates(model_paths: Seq<Seq<char>>, server: Seq<char>) -> Seq<Seq<char>> {
    if server.len() > 0 && server[0] == '/' {
        model_paths.push(server)
    } else {
        model_paths
    }
}

/// `s` is in strictly increasing `String` order.
pub open spec fn strictly_sorted(s: Seq<Seq<char>>) -> bool {
    forall|i: int, j: int| 0 <= i < j < s.len() ==> lex_lt(#[trigger] s[i], #[trigger] s[j])
}

fn home_dir(p: &str) -> (r: Option<String>)
    ensures
        match r {
            Some(h) => home_of(p@) == Some(h@),
            None => home_of(p@) is None,
        },
{
    proof {
        reveal_strlit("/");
        reveal_strlit("home");
    }
    let comps = path_components(&chars_of(p));
    let ghost c = comps@.map_values(|v: Vec<char>| v@);
    if comps.len() < 3 {
        return None;
    }
    let a = &comps[0];
    let b = &comps[1];
    let is_root = a.len() == 1 && a[0] == '/';
    let is_home = b.len() == 4 && b[0] == 'h' && b[1] == 'o' && b[2] == 'm' && b[3] == 'e';
    proof {
        assert(c[0] == a@ && c[1] == b@);
        if a@.len() == 1 {
            assert(is_root == (a@ =~= "/"@));
        } else {
            assert(a@ != "/"@);
        }
        if b@.len() == 4 {
            assert(is_home == (b@ =~= "home"@));
        } else {
            assert(b@ != "home"@);
        }
    }
    if !(is_root && is_home) {
        return None;
    }
    let mut h = chars_of("/home/");
    crate::text::push_all(&mut h, &comps[2]);
    assert(c[2] == comps@[2]@);
    Some(string_of(h.as_slice()))
}

/// Adds `h` to a strictly sorted list of strings, keeping it strictly sorted.
fn insert_sorted(v: &mut Vec<String>, h: String)
    requires
        strictly_sorted(views(old(v)@)),
    ensures
        strictly_sorted(views(final(v)@)),
        forall|x: Seq<char>| views(final(v)@).contains(x) <==> (views(old(v)@).contains(x) || x == h@),
{
    let ghost s = views(v@);
    let mut k: usize = 0;
    let mut stop = false;
    while k < v.len() && !stop
        invariant
            k <= v@.len(),
            s == views(v@),
            strictly_sorted(s),
            forall|j: int| 0 <= j < k ==> lex_lt(#[trigger] s[j], h@),
            stop ==> k < v@.len() && !lex_lt(s[k as int], h@),
        decreases v@.len() - k, if stop { 0int } else { 1int },
    {
        let hv = chars_of(h.as_str());
        let cv = chars_of(v[k].as_str());
        assert(s[k as int] == v@[k as int]@);
        if lex_less(&cv, &hv) {
            k = k + 1;
        } else {
            stop = true;
        }
    }
    if stop {
        let hv = chars_of(h.as_str());
        let cv = chars_of(v[k].as_str());
        assert(s[k as int] == cv@);
        if !lex_less(&hv, &cv) {
            proof {
                lemma_lex_total(s[k as int], h@);
            }
            assert(s.contains(h@)) by {
                assert(s[k as int] == h@);
            }
            return;
        }
    }
    let ghost hv = h@;
    v.insert(k, h);
    proof {
        let t = views(v@);
        assert(t =~= s.insert(k as int, hv));
        assert forall|i: int, j: int| 0 <= i < j < t.len() implies lex_lt(#[trigger] t[i], #[trigger] t[j]) by {
            if j < k {
                assert(t[i] == s[i] && t[j] == s[j]);
            } else if j == k {
                assert(t[j] == hv);
                assert(t[i] == s[i]);
            } else if i == k {
                assert(t[i] == hv);
                assert(t[j] == s[j - 1]);
                assert(lex_lt(hv, s[k as int]));
                if j - 1 > k {
                    lemma_lex_transitive(hv, s[k as int], s[j - 1]);
                }
            } else if i < k {
                assert(t[i] == s[i]);
                assert(t[j] == s[j - 1]);
            } else {
                assert(t[i] == s[i - 1] && t[j] == s[j - 1]);
            }
        }
        assert forall|x: Seq<char>| t.contains(x) <==> (s.contains(x) || x == hv) by {
            if t.contains(x) {
                let w = choose|w: int| 0 <= w < t.len() && t[w] == x;
                if w < k {
                    assert(s[w] == x);
                } else if w > k {
                    assert(s[w - 1] == x);
                }
            }
            if s.contains(x) {
                let w = choose|w: int| 0 <= w < s.len() && s[w] == x;
                if w < k {
                    assert(t[w] == x);
                } else {
                    assert(t[w + 1] == x);
                }
            }
            if x == hv {
                assert(t[k as int] == x);
            }
        }
    }
}

/// The home directories the service account must be able to traverse to reach the
/// model files and the server executable (when it is an absolute path): the
/// `/home/<user>` directory each lies in, each once, in `String` order.
pub fn home_dirs_needing_acl(model_paths: &[String], server_executable: &str) -> (r: Vec<String>)
    ensures
        strictly_sorted(views(r@)),
        forall|x: Seq<char>|
            views(r@).contains(x) <==> exists|k: int|
                0 <= k < acl_candidates(views(model_paths@), server_executable@).len() && home_of(
                    #[trigger] acl_candidates(views(model_paths@), server_executable@)[k],
                ) == Some(x),
{
    let mut candidates: Vec<String> = Vec::new();
    let mut i: usize = 0;
    while i < model_paths.len()
        invariant
            i <= model_paths@.len(),
            views(candidates@) == views(model_paths@).subrange(0, i as int),
        decreases model_paths@.len() - i,
    {
        let ghost before = views(candidates@);
        let p = model_paths[i].clone();
        let ghost pv = p@;
        candidates.push(p);
        assert(pv == views(model_paths@)[i as int]);
        assert(views(candidates@) =~= before.push(pv));
        i = i + 1;
        assert(views(candidates@) =~= views(model_paths@).subrange(0, i as int));
    }
    assert(views(model_paths@).subrange(0, model_paths@.len() as int) =~= views(model_paths@));
    let sv = chars_of(server_executable);
    if sv.len() > 0 && sv[0] == '/' {
        let ghost before = views(candidates@);
        candidates.push(String::from_str(server_executable));
        assert(views(candidates@) =~= before.push(server_executable@));
    }
    let ghost cands = views(candidates@);
    assert(cands == acl_candidates(views(model_paths@), server_executable@));
    let mut out: Vec<String> = Vec::new();
    let mut j: usize = 0;
    while j < candidates.len()
        invariant
            j <= candidates@.len(),
            cands == views(candidates@),
            strictly_sorted(views(out@)),
            forall|x: Seq<char>|
                views(out@).contains(x) <==> exists|k: int|
                    0 <= k < j && home_of(#[trigger] cands[k]) == Some(x),
        decreases candidates@.len() - j,
    {
        assert(cands[j as int] == candidates@[j as int]@);
        let ghost before = views(out@);
        match home_dir(candidates[j].as_str()) {
            Some(h) => {
                let ghost hv = h@;
                insert_sorted(&mut out, h);
                assert forall|x: Seq<char>|
                    views(out@).contains(x) <==> exists|k: int|
                        0 <= k < j + 1 && home_of(#[trigger] cands[k]) == Some(x) by {
                    if x == hv {
                        assert(home_of(cands[j as int]) == Some(x));
                    }
                    if exists|k: int| 0 <= k < j + 1 && home_of(#[trigger] cands[k]) == Some(x) {
                        let k = choose|k: int| 0 <= k < j + 1 && home_of(#[trigger] cands[k]) == Some(x);
                        if k < j {
                            assert(before.contains(x));
                        }
                    }
                }
            },
            None => {
                assert forall|x: Seq<char>|
                    views(out@).contains(x) <==> exists|k: int|
                        0 <= k < j + 1 && home_of(#[trigger] cands[k]) == Some(x) by {
                    if exists|k: int| 0 <= k < j + 1 && home_of(#[trigger] cands[k]) == Some(x) {
                        let k = choose|k: int| 0 <= k < j + 1 && home_of(#[trigger] cands[k]) == Some(x);
                        assert(k < j);
                    }
                }
            },
        }
        j = j + 1;
    }
    out
}

} // verus!
