//! Planning a remote development connection: which guest ports to forward, the ports
//! that carry them on the remote host and locally, the tunnel commands, and where a
//! broken connection fails.
use vstd::prelude::*;
use crate::paths::path_join;
use crate::remote::RemoteEndpoint;
use crate::strset::{lemma_lt_total, lemma_lt_transitive, str_lt, string_eq, string_lt};
use crate::text::{decimal, push_char, push_decimal, push_single_quoted, push_str, single_quoted, views};

verus! {

broadcast use vstd::string::group_string_axioms;

/// Why a connection cannot be planned.
#[derive(Clone, Copy, Debug, PartialEq, Eq, Structural)]
pub enum ConnectError {
    /// Neither the browser nor a Web UI port was requested.
    NoEndpointRequested,
    /// The remote run is not the run of the channel.
    RunIdentityChanged,
    /// A requested Web UI port is zero.
    ZeroWebUiPort,
    /// The remote ports would run past the last port number.
    TooManyEndpoints,
    /// A local port was not provided for every endpoint.
    LocalPortsMissing,
}

impl ConnectError {
    /// The human-readable description of the error.
    pub open spec fn text(&self) -> Seq<char> {
        match *self {
            ConnectError::NoEndpointRequested => "request at least one remote endpoint"@,
            ConnectError::RunIdentityChanged => "remote channel run identity changed"@,
            ConnectError::ZeroWebUiPort => "Web UI port must be nonzero"@,
            ConnectError::TooManyEndpoints => "too many requested endpoints"@,
            ConnectError::LocalPortsMissing => "a local port is needed for every endpoint"@,
        }
    }

    /// Renders the description of the error.
    pub fn message(&self) -> (r: String)
        ensures
            r@ == self.text(),
    {
        let mut s = String::new();
        match *self {
            ConnectError::NoEndpointRequested => push_str(&mut s, "request at least one remote endpoint"),
            ConnectError::RunIdentityChanged => push_str(&mut s, "remote channel run identity changed"),
            ConnectError::ZeroWebUiPort => push_str(&mut s, "Web UI port must be nonzero"),
            ConnectError::TooManyEndpoints => push_str(&mut s, "too many requested endpoints"),
            ConnectError::LocalPortsMissing => push_str(&mut s, "a local port is needed for every endpoint"),
        }
        s
    }
}

/// A connection must forward at least one endpoint.
pub fn ensure_endpoint_requested(browser: bool, web_ui_ports: &[u16]) -> (r: Result<(), ConnectError>)
    ensures
        r == (if !browser && web_ui_ports@.len() == 0 {
            Err(ConnectError::NoEndpointRequested)
        } else {
            Ok(())
        }),
{
    if !browser && web_ui_ports.len() == 0 {
        Err(ConnectError::NoEndpointRequested)
    } else {
        Ok(())
    }
}

/// The remote run must still be the channel's run.
pub fn ensure_same_run(remote_run_id: &str, run_id: &str) -> (r: Result<(), ConnectError>)
    ensures
        r == (if remote_run_id@ == run_id@ {
            Ok(())
        } else {
            Err(ConnectError::RunIdentityChanged)
        }),
{
    if string_eq(remote_run_id, run_id) {
        Ok(())
    } else {
        Err(ConnectError::RunIdentityChanged)
    }
}

/// The order of `(purpose, port)` pairs: by purpose, then port.
pub open spec fn pair_lt(a: (Seq<char>, u16), b: (Seq<char>, u16)) -> bool {
    str_lt(a.0, b.0) || (a.0 == b.0 && a.1 < b.1)
}

/// Strictly increasing pairs, hence free of duplicates.
pub open spec fn pairs_sorted(s: Seq<(Seq<char>, u16)>) -> bool {
    forall|i: int, j: int| 0 <= i < j < s.len() ==> pair_lt(#[trigger] s[i], #[trigger] s[j])
}

/// The pairs held by a vector.
pub open spec fn pair_views(v: Seq<(String, u16)>) -> Seq<(Seq<char>, u16)> {
    v.map_values(|p: (String, u16)| (p.0@, p.1))
}

/// The purpose of a forwarded Web UI port.
pub open spec fn web_ui_purpose(port: u16) -> Seq<char> {
    "web-ui-"@ + decimal(port as nat)
}

/// The port the browser's DevTools endpoint listens on in the guest.
pub const BROWSER_GUEST_PORT: u16 = 9222;

/// The `(purpose, guest port)` pairs requested: the browser's DevTools port, and each
/// Web UI port.
pub open spec fn requested_pairs(browser: bool, web_ui_ports: Seq<u16>) -> Set<(Seq<char>, u16)> {
    (if browser {
        set![("browser"@, BROWSER_GUEST_PORT)]
    } else {
        Set::empty()
    }) + web_ui_ports.map_values(|p: u16| (web_ui_purpose(p), p)).to_set()
}

proof fn lemma_pair_lt_transitive(a: (Seq<char>, u16), b: (Seq<char>, u16), c: (Seq<char>, u16))
    requires
        pair_lt(a, b),
        pair_lt(b, c),
    ensures
        pair_lt(a, c),
{
    if str_lt(a.0, b.0) && str_lt(b.0, c.0) {
        lemma_lt_transitive(a.0, b.0, c.0);
    }
}

proof fn lemma_pair_lt_total(a: (Seq<char>, u16), b: (Seq<char>, u16))
    ensures
        pair_lt(a, b) || pair_lt(b, a) || a == b,
{
    lemma_lt_total(a.0, b.0);
}

fn pair_before(a: &(String, u16), b: &(String, u16)) -> (r: bool)
    ensures
        r == pair_lt((a.0@, a.1), (b.0@, b.1)),
{
    if string_lt(a.0.as_str(), b.0.as_str()) {
        true
    } else if string_eq(a.0.as_str(), b.0.as_str()) {
        a.1 < b.1
    } else {
        false
    }
}

/// Inserts a pair into a strictly increasing vector of pairs, unless it is there.
fn insert_pair(v: &mut Vec<(String, u16)>, x: (String, u16))
    requires
        pairs_sorted(pair_views(old(v)@)),
    ensures
        pairs_sorted(pair_views(final(v)@)),
        pair_views(final(v)@).to_set() == pair_views(old(v)@).to_set().insert((x.0@, x.1)),
{
    let ghost xv = (x.0@, x.1);
    let n = v.len();
    let mut i: usize = 0;
    while i < n && pair_before(&v[i], &x)
        invariant
            i <= n,
            n == v@.len(),
            xv == (x.0@, x.1),
            pairs_sorted(pair_views(v@)),
            forall|k: int| 0 <= k < i ==> pair_lt(#[trigger] pair_views(v@)[k], xv),
        decreases n - i,
    {
        i = i + 1;
    }
    if i < n && string_eq(v[i].0.as_str(), x.0.as_str()) && v[i].1 == x.1 {
        assert(pair_views(v@)[i as int] == xv);
        assert(pair_views(v@).to_set() =~= pair_views(v@).to_set().insert(xv));
        return;
    }
    let ghost old_v = v@;
    proof {
        if i < n {
            lemma_pair_lt_total(pair_views(v@)[i as int], xv);
        }
    }
    v.insert(i, x);
    proof {
        let ov = pair_views(old_v);
        let nv = pair_views(v@);
        assert(nv =~= ov.take(i as int).push(xv) + ov.skip(i as int));
        assert forall|a: int, b: int| 0 <= a < b < nv.len() implies pair_lt(#[trigger] nv[a], #[trigger] nv[b]) by {
            if b < i {
            } else if b == i {
            } else if a < i {
                assert(nv[b] == ov[b - 1]);
                if b - 1 > i {
                    assert(pair_lt(ov[i as int], ov[b - 1]));
                    lemma_pair_lt_transitive(xv, ov[i as int], ov[b - 1]);
                }
                lemma_pair_lt_transitive(nv[a], xv, nv[b]);
            } else if a == i {
                assert(nv[b] == ov[b - 1]);
                if b - 1 > i {
                    assert(pair_lt(ov[i as int], ov[b - 1]));
                    lemma_pair_lt_transitive(xv, ov[i as int], ov[b - 1]);
                }
            } else {
                assert(nv[a] == ov[a - 1]);
                assert(nv[b] == ov[b - 1]);
            }
        }
        assert forall|y: (Seq<char>, u16)| nv.contains(y) <==> ov.contains(y) || y == xv by {
            if nv.contains(y) {
                let k = choose|k: int| 0 <= k < nv.len() && nv[k] == y;
                if k < i {
                    assert(ov[k] == y);
                } else if k > i {
                    assert(ov[k - 1] == y);
                }
            }
            if ov.contains(y) {
                let k = choose|k: int| 0 <= k < ov.len() && ov[k] == y;
                if k < i {
                    assert(nv[k] == y);
                } else {
                    assert(nv[k + 1] == y);
                }
            }
            if y == xv {
                assert(nv[i as int] == y);
            }
        }
        assert(nv.to_set() =~= ov.to_set().insert(xv));
    }
}

fn web_ui_name(port: u16) -> (r: String)
    ensures
        r@ == web_ui_purpose(port),
{
    let mut s = String::new();
    push_str(&mut s, "web-ui-");
    push_decimal(&mut s, port as u64);
    s
}

/// The guest ports to forward, each with its purpose, in increasing order of purpose
/// and port and without repetition. Refused when a Web UI port is zero.
pub fn requested_guest_ports(browser: bool, web_ui_ports: &[u16]) -> (r: Result<Vec<(String, u16)>, ConnectError>)
    ensures
        (exists|i: int| 0 <= i < web_ui_ports@.len() && web_ui_ports@[i] == 0) ==> r == Err::<Vec<(String, u16)>, ConnectError>(ConnectError::ZeroWebUiPort),
        (forall|i: int| 0 <= i < web_ui_ports@.len() ==> web_ui_ports@[i] != 0) ==> (r matches Ok(v) && {
            &&& pairs_sorted(pair_views(v@))
            &&& pair_views(v@).to_set() == requested_pairs(browser, web_ui_ports@)
        }),
{
    let ghost ports = web_ui_ports@;
    let mut out: Vec<(String, u16)> = Vec::new();
    proof {
        assert(pair_views(out@).to_set() =~= Set::<(Seq<char>, u16)>::empty());
    }
    if browser {
        let mut name = String::new();
        push_str(&mut name, "browser");
        insert_pair(&mut out, (name, BROWSER_GUEST_PORT));
    }
    let ghost start = pair_views(out@).to_set();
    assert(start == (if browser { set![("browser"@, BROWSER_GUEST_PORT)] } else { Set::<(Seq<char>, u16)>::empty() })) by {
        if browser {
            assert(start =~= set![("browser"@, BROWSER_GUEST_PORT)]);
        }
    }
    let mut i: usize = 0;
    while i < web_ui_ports.len()
        invariant
            ports == web_ui_ports@,
            i <= ports.len(),
            forall|k: int| 0 <= k < i ==> ports[k] != 0,
            pairs_sorted(pair_views(out@)),
            pair_views(out@).to_set() == start + ports.take(i as int).map_values(|p: u16| (web_ui_purpose(p), p)).to_set(),
        decreases ports.len() - i,
    {
        let port = web_ui_ports[i];
        if port == 0 {
            return Err(ConnectError::ZeroWebUiPort);
        }
        let ghost before = pair_views(out@).to_set();
        insert_pair(&mut out, (web_ui_name(port), port));
        proof {
            let f = |p: u16| (web_ui_purpose(p), p);
            assert(ports.take(i + 1).map_values(f) =~= ports.take(i as int).map_values(f).push(f(port)));
            ports.take(i as int).map_values(f).lemma_push_to_set_commute(f(port));
            assert(pair_views(out@).to_set() =~= start + ports.take(i + 1).map_values(f).to_set());
        }
        i = i + 1;
    }
    assert(ports.take(i as int) =~= ports);
    Ok(out)
}

/// The first remote port of a connection whose identifier begins with the byte
/// `first_id_byte`.
pub open spec fn remote_start(first_id_byte: u8) -> int {
    30000 + first_id_byte * 32
}

/// The URL of a local port.
pub open spec fn local_url(port: u16) -> Seq<char> {
    "http://127.0.0.1:"@ + decimal(port as nat)
}

/// The endpoints of a connection: the `k`-th requested guest port is carried on the
/// remote host at `remote_start + k` and locally at the `k`-th local port; none is
/// ready yet. Refused when a remote port would pass the last port number, and when
/// fewer local ports than endpoints were given.
pub fn plan_endpoints(guest_ports: &Vec<(String, u16)>, first_id_byte: u8, local_ports: &[u16]) -> (r: Result<Vec<RemoteEndpoint>, ConnectError>)
    ensures
        local_ports@.len() < guest_ports@.len() ==> r == Err::<Vec<RemoteEndpoint>, ConnectError>(ConnectError::LocalPortsMissing),
        local_ports@.len() >= guest_ports@.len() && guest_ports@.len() > 0 && remote_start(first_id_byte) + guest_ports@.len() - 1 > u16::MAX
            ==> r == Err::<Vec<RemoteEndpoint>, ConnectError>(ConnectError::TooManyEndpoints),
        local_ports@.len() >= guest_ports@.len() && (guest_ports@.len() == 0 || remote_start(first_id_byte) + guest_ports@.len() - 1 <= u16::MAX)
            ==> (r matches Ok(v) && v@.len() == guest_ports@.len() && forall|k: int| 0 <= k < v@.len() ==> {
                &&& #[trigger] v@[k].purpose@ == guest_ports@[k].0@
                &&& v@[k].guest_port == guest_ports@[k].1
                &&& v@[k].remote_port == remote_start(first_id_byte) + k
                &&& v@[k].local_port == local_ports@[k]
                &&& v@[k].url@ == local_url(local_ports@[k])
                &&& !v@[k].ready
            }),
{
    let n = guest_ports.len();
    if local_ports.len() < n {
        return Err(ConnectError::LocalPortsMissing);
    }
    let start: u32 = 30000 + (first_id_byte as u32) * 32;
    let mut out: Vec<RemoteEndpoint> = Vec::new();
    let mut k: usize = 0;
    while k < n
        invariant
            n == guest_ports@.len(),
            local_ports@.len() >= n,
            start == remote_start(first_id_byte),
            k <= n,
            k > 0 ==> start + k - 1 <= u16::MAX,
            out@.len() == k,
            forall|j: int| 0 <= j < k ==> {
                &&& #[trigger] out@[j].purpose@ == guest_ports@[j].0@
                &&& out@[j].guest_port == guest_ports@[j].1
                &&& out@[j].remote_port == start + j
                &&& out@[j].local_port == local_ports@[j]
                &&& out@[j].url@ == local_url(local_ports@[j])
                &&& !out@[j].ready
            },
        decreases n - k,
    {
        if k >= 65536 || start + (k as u32) > 65535 {
            return Err(ConnectError::TooManyEndpoints);
        }
        let remote_port: u16 = (start + (k as u32)) as u16;
        let local_port = local_ports[k];
        let mut url = String::new();
        push_str(&mut url, "http://127.0.0.1:");
        push_decimal(&mut url, local_port as u64);
        out.push(RemoteEndpoint {
            purpose: guest_ports[k].0.clone(),
            guest_port: guest_ports[k].1,
            remote_port,
            local_port,
            url,
            ready: false,
        });
        k = k + 1;
    }
    Ok(out)
}

/// The `-L` forwarding of an endpoint inside the guest tunnel.
pub open spec fn guest_forward(e: RemoteEndpoint) -> Seq<char> {
    "127.0.0.1:"@ + decimal(e.remote_port as nat) + ":127.0.0.1:"@ + decimal(e.guest_port as nat)
}

/// The `-L` options of each endpoint, in order.
pub open spec fn guest_forwards(es: Seq<RemoteEndpoint>) -> Seq<Seq<char>>
    decreases es.len(),
{
    if es.len() == 0 {
        seq![]
    } else {
        guest_forwards(es.drop_last()) + seq!["-L"@, guest_forward(es.last())]
    }
}

/// The SSH command run on the remote host that opens the tunnel into the guest.
pub open spec fn guest_tunnel_spec(
    connection_id: Seq<char>,
    known_hosts: Seq<char>,
    private_key: Seq<char>,
    ssh_port: u16,
    ssh_user: Seq<char>,
    endpoints: Seq<RemoteEndpoint>,
) -> Seq<Seq<char>> {
    seq![
        "env"@,
        "AVM_CONNECTION_ID="@ + connection_id,
        "ssh"@,
        "-N"@,
        "-T"@,
        "-o"@,
        "BatchMode=yes"@,
        "-o"@,
        "ExitOnForwardFailure=yes"@,
        "-o"@,
        "StrictHostKeyChecking=yes"@,
        "-o"@,
        "UserKnownHostsFile="@ + known_hosts,
        "-i"@,
        private_key,
        "-p"@,
        decimal(ssh_port as nat),
    ] + guest_forwards(endpoints) + seq![ssh_user + "@127.0.0.1"@]
}

/// Words joined by single spaces, each quoted for a POSIX shell.
pub open spec fn quoted_words(words: Seq<Seq<char>>) -> Seq<char>
    decreases words.len(),
{
    if words.len() == 0 {
        seq![]
    } else if words.len() == 1 {
        single_quoted(words[0])
    } else {
        quoted_words(words.drop_last()) + seq![' '] + single_quoted(words.last())
    }
}

fn owned(s: &str) -> (r: String)
    ensures
        r@ == s@,
{
    let mut o = String::new();
    push_str(&mut o, s);
    o
}

fn push_word(words: &mut Vec<String>, w: String)
    ensures
        views(final(words)@) == views(old(words)@).push(w@),
{
    let ghost before = views(words@);
    words.push(w);
    assert(views(words@) =~= before.push(w@));
}

fn prefixed(prefix: &str, s: &str) -> (r: String)
    ensures
        r@ == prefix@ + s@,
{
    let mut o = String::new();
    push_str(&mut o, prefix);
    push_str(&mut o, s);
    o
}

/// The shell command, quoted word by word, that the remote host runs to open the
/// tunnel into the guest: SSH with the guest's pinned host key, forwarding each
/// endpoint's remote port to its guest port.
pub fn guest_tunnel_command(
    connection_id: &str,
    remote_state_dir: &str,
    private_key: &str,
    ssh_port: u16,
    ssh_user: &str,
    endpoints: &[RemoteEndpoint],
) -> (r: String)
    ensures
        r@ == quoted_words(guest_tunnel_spec(
            connection_id@,
            path_join(remote_state_dir@, "guest_known_hosts"@),
            private_key@,
            ssh_port,
            ssh_user@,
            endpoints@,
        )),
{
    let known_hosts = crate::paths::join(remote_state_dir, "guest_known_hosts");
    let mut words: Vec<String> = Vec::new();
    push_word(&mut words, owned("env"));
    push_word(&mut words, prefixed("AVM_CONNECTION_ID=", connection_id));
    push_word(&mut words, owned("ssh"));
    push_word(&mut words, owned("-N"));
    push_word(&mut words, owned("-T"));
    push_word(&mut words, owned("-o"));
    push_word(&mut words, owned("BatchMode=yes"));
    push_word(&mut words, owned("-o"));
    push_word(&mut words, owned("ExitOnForwardFailure=yes"));
    push_word(&mut words, owned("-o"));
    push_word(&mut words, owned("StrictHostKeyChecking=yes"));
    push_word(&mut words, owned("-o"));
    push_word(&mut words, prefixed("UserKnownHostsFile=", known_hosts.as_str()));
    push_word(&mut words, owned("-i"));
    push_word(&mut words, owned(private_key));
    push_word(&mut words, owned("-p"));
    let mut port = String::new();
    push_decimal(&mut port, ssh_port as u64);
    push_word(&mut words, port);
    let ghost head = views(words@);
    assert(head =~= seq![
        "env"@,
        "AVM_CONNECTION_ID="@ + connection_id@,
        "ssh"@,
        "-N"@,
        "-T"@,
        "-o"@,
        "BatchMode=yes"@,
        "-o"@,
        "ExitOnForwardFailure=yes"@,
        "-o"@,
        "StrictHostKeyChecking=yes"@,
        "-o"@,
        "UserKnownHostsFile="@ + path_join(remote_state_dir@, "guest_known_hosts"@),
        "-i"@,
        private_key@,
        "-p"@,
        decimal(ssh_port as nat),
    ]);
    let mut k: usize = 0;
    assert(endpoints@.take(0) =~= Seq::<RemoteEndpoint>::empty());
    assert(head + guest_forwards(endpoints@.take(0)) =~= head);
    while k < endpoints.len()
        invariant
            k <= endpoints@.len(),
            views(words@) == head + guest_forwards(endpoints@.take(k as int)),
        decreases endpoints@.len() - k,
    {
        let e = &endpoints[k];
        let mut forward = String::new();
        push_str(&mut forward, "127.0.0.1:");
        push_decimal(&mut forward, e.remote_port as u64);
        push_str(&mut forward, ":127.0.0.1:");
        push_decimal(&mut forward, e.guest_port as u64);
        let ghost before = views(words@);
        push_word(&mut words, owned("-L"));
        push_word(&mut words, forward);
        proof {
            assert(endpoints@.take(k + 1).drop_last() =~= endpoints@.take(k as int));
            assert(views(words@) =~= before + seq!["-L"@, guest_forward(endpoints@[k as int])]);
        }
        k = k + 1;
    }
    assert(endpoints@.take(k as int) =~= endpoints@);
    let mut user = String::new();
    push_str(&mut user, ssh_user);
    push_str(&mut user, "@127.0.0.1");
    let ghost before_user = views(words@);
    assert(before_user == head + guest_forwards(endpoints@));
    push_word(&mut words, user);
    let ghost all = views(words@);
    assert(all =~= guest_tunnel_spec(
        connection_id@,
        path_join(remote_state_dir@, "guest_known_hosts"@),
        private_key@,
        ssh_port,
        ssh_user@,
        endpoints@,
    ));
    let mut out = String::new();
    let mut i: usize = 0;
    assert(all.take(0) =~= Seq::<Seq<char>>::empty());
    while i < words.len()
        invariant
            all == views(words@),
            i <= all.len(),
            out@ == quoted_words(all.take(i as int)),
        decreases all.len() - i,
    {
        if i > 0 {
            push_char(&mut out, ' ');
        }
        push_single_quoted(&mut out, words[i].as_str());
        proof {
            assert(all.take(i + 1).drop_last() =~= all.take(i as int));
            assert(all.take(i + 1).last() == all[i as int]);
            if i == 0 {
                assert(all.take(1)[0] == all[0]);
            }
        }
        i = i + 1;
    }
    assert(all.take(i as int) =~= all);
    out
}

/// The `--ssh-flag` options that forward each local port to its remote port.
pub open spec fn local_forwards(es: Seq<RemoteEndpoint>) -> Seq<Seq<char>>
    decreases es.len(),
{
    if es.len() == 0 {
        seq![]
    } else {
        local_forwards(es.drop_last()) + seq![
            "--ssh-flag=-L="@ + decimal(es.last().local_port as nat) + ":127.0.0.1:"@ + decimal(es.last().remote_port as nat)
        ]
    }
}

/// The `gcloud` arguments that open the outer tunnel to the remote host and run the
/// guest tunnel there.
pub open spec fn outer_tunnel_spec(
    project: Seq<char>,
    zone: Seq<char>,
    instance: Seq<char>,
    endpoints: Seq<RemoteEndpoint>,
    guest_command: Seq<char>,
) -> Seq<Seq<char>> {
    seq!["compute"@, "ssh"@, "--quiet"@, "--project"@, project, "--zone"@, zone, "--ssh-flag=-o=ExitOnForwardFailure=yes"@]
        + local_forwards(endpoints) + seq![instance, "--command"@, guest_command]
}

/// The `gcloud` arguments of the outer tunnel.
pub fn outer_tunnel_arguments(
    project: &str,
    zone: &str,
    instance: &str,
    endpoints: &[RemoteEndpoint],
    guest_command: &str,
) -> (r: Vec<String>)
    ensures
        views(r@) == outer_tunnel_spec(project@, zone@, instance@, endpoints@, guest_command@),
{
    let mut words: Vec<String> = Vec::new();
    push_word(&mut words, owned("compute"));
    push_word(&mut words, owned("ssh"));
    push_word(&mut words, owned("--quiet"));
    push_word(&mut words, owned("--project"));
    push_word(&mut words, owned(project));
    push_word(&mut words, owned("--zone"));
    push_word(&mut words, owned(zone));
    push_word(&mut words, owned("--ssh-flag=-o=ExitOnForwardFailure=yes"));
    let ghost head = views(words@);
    assert(head =~= seq!["compute"@, "ssh"@, "--quiet"@, "--project"@, project@, "--zone"@, zone@, "--ssh-flag=-o=ExitOnForwardFailure=yes"@]);
    let mut k: usize = 0;
    assert(endpoints@.take(0) =~= Seq::<RemoteEndpoint>::empty());
    assert(head + local_forwards(endpoints@.take(0)) =~= head);
    while k < endpoints.len()
        invariant
            k <= endpoints@.len(),
            views(words@) == head + local_forwards(endpoints@.take(k as int)),
        decreases endpoints@.len() - k,
    {
        let e = &endpoints[k];
        let mut flag = String::new();
        push_str(&mut flag, "--ssh-flag=-L=");
        push_decimal(&mut flag, e.local_port as u64);
        push_str(&mut flag, ":127.0.0.1:");
        push_decimal(&mut flag, e.remote_port as u64);
        let ghost before = views(words@);
        push_word(&mut words, flag);
        proof {
            assert(endpoints@.take(k + 1).drop_last() =~= endpoints@.take(k as int));
            assert(endpoints@.take(k + 1).last() == endpoints@[k as int]);
        }
        k = k + 1;
    }
    assert(endpoints@.take(k as int) =~= endpoints@);
    let ghost mid = views(words@);
    assert(mid == head + local_forwards(endpoints@));
    push_word(&mut words, owned(instance));
    push_word(&mut words, owned("--command"));
    push_word(&mut words, owned(guest_command));
    assert(views(words@) =~= outer_tunnel_spec(project@, zone@, instance@, endpoints@, guest_command@));
    words
}

/// Where a connection's endpoint fails: the remote host, then the guest's SSH, then
/// the forwarding process, then the service in the guest (its DevTools endpoint for the
/// browser, else the Web UI); nowhere when the endpoint is ready.
pub open spec fn failure_layer_spec(
    outer_host_reachable: bool,
    guest_ssh_reachable: bool,
    process_owned: bool,
    ready: bool,
    purpose: Seq<char>,
) -> Option<Seq<char>> {
    if !outer_host_reachable {
        Some("outer-host"@)
    } else if !guest_ssh_reachable {
        Some("guest-ssh"@)
    } else if !process_owned {
        Some("forwarding-process"@)
    } else if !ready && purpose == "browser"@ {
        Some("guest-cdp"@)
    } else if !ready {
        Some("guest-web-ui"@)
    } else {
        None
    }
}

/// Where a connection's endpoint fails.
pub fn failure_layer(
    outer_host_reachable: bool,
    guest_ssh_reachable: bool,
    process_owned: bool,
    ready: bool,
    purpose: &str,
) -> (r: Option<&'static str>)
    ensures
        match failure_layer_spec(outer_host_reachable, guest_ssh_reachable, process_owned, ready, purpose@) {
            Some(l) => r matches Some(s) && s@ == l,
            None => r is None,
        },
{
    if !outer_host_reachable {
        Some("outer-host")
    } else if !guest_ssh_reachable {
        Some("guest-ssh")
    } else if !process_owned {
        Some("forwarding-process")
    } else if !ready && string_eq(purpose, "browser") {
        Some("guest-cdp")
    } else if !ready {
        Some("guest-web-ui")
    } else {
        None
    }
}

} // verus!
