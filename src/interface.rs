//! The per-platform layer: which adapters a status report lists as active,
//! which adapter to act on, the privileged commands that set DNS servers,
//! and how a run of those commands proceeds.
use vstd::prelude::*;
use vstd::string::StringExecFns;
use crate::addr::{is_dec_digit, dec_value};
use crate::dns::DnsServer;
use crate::text::{
    contains, first_index, last_index_of, lines, trim, views, to_chars, from_chars, find_first,
    find_last, trimmed, lines_of, slice,
};

verus! {

/// NetworkManager's command line, as found on Linux.
pub struct Linux;

/// netsh, as found on Windows.
pub struct Windows;

/// The operating system family whose commands are used.
#[derive(Clone, Copy, Debug, PartialEq, Eq, Structural)]
pub enum Platform {
    Linux,
    Windows,
}

/// Whether a line of the platform's status report lists an active adapter.
pub open spec fn is_adapter_line(p: Platform, l: Seq<char>) -> bool {
    match p {
        Platform::Linux => contains(l, "connected"@) && !contains(l, "disconnected"@),
        Platform::Windows => contains(l, "Connected"@),
    }
}

/// The adapter name on a line that lists an active adapter: on Linux what
/// follows the first "connected", trimmed; on Windows what follows the last space.
pub open spec fn adapter_name(p: Platform, l: Seq<char>) -> Seq<char> {
    match p {
        Platform::Linux => trim(
            l.subrange(first_index(l, "connected"@) + "connected"@.len(), l.len() as int),
        ),
        Platform::Windows => l.subrange(last_index_of(l, ' ') + 1, l.len() as int),
    }
}

/// The adapters that a sequence of report lines lists, in order.
pub open spec fn adapters_in(p: Platform, ls: Seq<Seq<char>>) -> Seq<Seq<char>>
    decreases ls.len(),
{
    if ls.len() == 0 {
        Seq::<Seq<char>>::empty()
    } else {
        let r = adapters_in(p, ls.drop_last());
        if is_adapter_line(p, ls.last()) {
            r.push(adapter_name(p, ls.last()))
        } else {
            r
        }
    }
}

/// The active adapters that a platform's status report lists.
pub open spec fn active_adapters(p: Platform, report: Seq<char>) -> Seq<Seq<char>> {
    adapters_in(p, lines(report))
}

pub open spec fn string_views(v: Seq<String>) -> Seq<Seq<char>> {
    v.map_values(|s: String| s@)
}

fn adapter_of_line(p: Platform, l: &Vec<char>) -> (r: Option<Vec<char>>)
    ensures
        r is Some <==> is_adapter_line(p, l@),
        r matches Some(n) ==> n@ == adapter_name(p, l@),
{
    let n = l.len();
    match p {
        Platform::Linux => {
            let marker = to_chars("connected");
            match find_first(l, &marker) {
                None => None,
                Some(i) => {
                    if find_first(l, &to_chars("disconnected")).is_some() {
                        None
                    } else {
                        assert(i + marker@.len() <= l@.len());
                        Some(trimmed(&slice(l, i + marker.len(), n)))
                    }
                },
            }
        },
        Platform::Windows => {
            if find_first(l, &to_chars("Connected")).is_none() {
                return None;
            }
            match find_last(l, ' ') {
                Some(i) => Some(slice(l, i + 1, n)),
                None => Some(slice(l, 0, n)),
            }
        },
    }
}

impl Platform {
    /// The adapters that the platform's status report lists as active, in
    /// the report's order.
    pub fn active_connections(&self, report: &str) -> (r: Vec<String>)
        ensures
            string_views(r@) == active_adapters(*self, report@),
    {
        let ls = lines_of(&to_chars(report));
        let ghost lv = views(ls@);
        let mut r: Vec<String> = Vec::new();
        let mut i: usize = 0;
        while i < ls.len()
            invariant
                i <= ls@.len(),
                lv == views(ls@),
                string_views(r@) == adapters_in(*self, lv.subrange(0, i as int)),
            decreases ls.len() - i,
        {
            assert(lv.subrange(0, i + 1).drop_last() =~= lv.subrange(0, i as int));
            assert(lv.subrange(0, i + 1).last() == ls@[i as int]@);
            let ghost before = r@;
            if let Some(n) = adapter_of_line(*self, &ls[i]) {
                r.push(from_chars(&n));
                assert(string_views(r@) =~= string_views(before).push(n@));
            }
            i += 1;
        }
        assert(lv.subrange(0, ls@.len() as int) =~= lv);
        r
    }
}

/// Why DNS settings could not be applied.
#[derive(Debug)]
pub enum ApplyError {
    /// The status report lists no active adapter.
    NoActiveAdapter,
    /// Several adapters are active and the choice among them is not a valid index.
    InvalidSelection,
    /// The platform cannot reset DNS to DHCP.
    Unsupported,
    /// A privileged command could not be started with elevated rights.
    ElevationFailed { step: usize, detail: String },
    /// A privileged command ran and exited with a failure status.
    CommandFailed { step: usize, code: Option<i32> },
}

/// The adapter to act on: the only active one, or the chosen one among several.
pub open spec fn selected(adapters: Seq<Seq<char>>, choice: Option<usize>) -> Option<Seq<char>> {
    if adapters.len() == 1 {
        Some(adapters[0])
    } else if adapters.len() > 1 && choice is Some && (choice->0 as int) < adapters.len() {
        Some(adapters[choice->0 as int])
    } else {
        None
    }
}

/// Whether the caller has to ask which adapter to act on.
pub fn needs_choice(adapters: &Vec<String>) -> (r: bool)
    ensures
        r == (adapters@.len() > 1),
{
    adapters.len() > 1
}

/// Picks the adapter to act on. With no active adapter there is nothing to
/// pick; with one, it is taken whatever the choice; with several, the choice
/// must be the index of one of them.
pub fn select_adapter(adapters: &Vec<String>, choice: Option<usize>) -> (r: Result<
    String,
    ApplyError,
>)
    ensures
        adapters@.len() == 0 ==> r matches Err(ApplyError::NoActiveAdapter),
        adapters@.len() > 0 && selected(string_views(adapters@), choice) is None ==> r matches Err(
            ApplyError::InvalidSelection,
        ),
        r is Ok <==> selected(string_views(adapters@), choice) is Some,
        r matches Ok(a) ==> Some(a@) == selected(string_views(adapters@), choice),
{
    if adapters.len() == 0 {
        Err(ApplyError::NoActiveAdapter)
    } else if adapters.len() == 1 {
        Ok(adapters[0].clone())
    } else {
        match choice {
            Some(i) => {
                if i < adapters.len() {
                    Ok(adapters[i].clone())
                } else {
                    Err(ApplyError::InvalidSelection)
                }
            },
            None => Err(ApplyError::InvalidSelection),
        }
    }
}

/// The digits of a reply to the adapter prompt: the trimmed reply without
/// one leading `+`.
pub open spec fn reply_digits(reply: Seq<char>) -> Seq<char> {
    let t = trim(reply);
    if t.len() > 0 && t[0] == '+' {
        t.drop_first()
    } else {
        t
    }
}

/// The index that a reply to the adapter prompt gives: decimal digits,
/// surrounded by white space, with a value that fits a `usize`.
pub open spec fn reply_index(reply: Seq<char>) -> Option<int> {
    let d = reply_digits(reply);
    if d.len() >= 1 && (forall|i: int| 0 <= i < d.len() ==> is_dec_digit(#[trigger] d[i]))
        && dec_value(d) <= usize::MAX {
        Some(dec_value(d) as int)
    } else {
        None
    }
}

proof fn lemma_dec_value_grows(s: Seq<char>, i: int)
    requires
        0 <= i <= s.len(),
        forall|j: int| 0 <= j < s.len() ==> is_dec_digit(#[trigger] s[j]),
    ensures
        dec_value(s.subrange(0, i)) <= dec_value(s),
    decreases s.len(),
{
    if i < s.len() {
        assert(s.drop_last().subrange(0, i) =~= s.subrange(0, i));
        lemma_dec_value_grows(s.drop_last(), i);
    } else {
        assert(s.subrange(0, i) =~= s);
    }
}

/// Reads the index that the user typed in reply to the adapter prompt.
pub fn parse_choice(reply: &str) -> (r: Option<usize>)
    ensures
        r matches Some(i) ==> reply_index(reply@) == Some(i as int),
        r is None <==> reply_index(reply@) is None,
{
    let t = trimmed(&to_chars(reply));
    let d = if t.len() > 0 && t[0] == '+' {
        slice(&t, 1, t.len())
    } else {
        t
    };
    assert(d@ == reply_digits(reply@)) by {
        if t@.len() > 0 && t@[0] == '+' {
            assert(t@.subrange(1, t@.len() as int) =~= t@.drop_first());
        }
    }
    if d.len() == 0 {
        return None;
    }
    let mut value: usize = 0;
    let mut i: usize = 0;
    while i < d.len()
        invariant
            d@ == reply_digits(reply@),
            i <= d@.len(),
            forall|j: int| 0 <= j < i ==> is_dec_digit(#[trigger] d@[j]),
            value == dec_value(d@.subrange(0, i as int)),
        decreases d.len() - i,
    {
        let c = d[i];
        if !('0' <= c && c <= '9') {
            return None;
        }
        let ghost next = d@.subrange(0, i + 1);
        assert(next.drop_last() =~= d@.subrange(0, i as int));
        let digit: usize = ((c as u32) - ('0' as u32)) as usize;
        if value > (usize::MAX - digit) / 10 {
            assert(value * 10 + digit > usize::MAX) by (nonlinear_arith)
                requires
                    value > (usize::MAX - digit) / 10,
                    digit <= 9,
            ;
            proof {
                if forall|j: int| 0 <= j < d@.len() ==> is_dec_digit(#[trigger] d@[j]) {
                    lemma_dec_value_grows(d@, i + 1);
                }
            }
            return None;
        }
        assert(value * 10 + digit <= usize::MAX) by (nonlinear_arith)
            requires
                value <= (usize::MAX - digit) / 10,
                digit <= 9,
        ;
        value = value * 10 + digit;
        i += 1;
    }
    assert(d@.subrange(0, d@.len() as int) =~= d@);
    Some(value)
}

/// One privileged command: a program and its arguments.
pub struct Invocation {
    pub program: String,
    pub args: Vec<String>,
}

impl View for Invocation {
    type V = (Seq<char>, Seq<Seq<char>>);

    open spec fn view(&self) -> (Seq<char>, Seq<Seq<char>>) {
        (self.program@, string_views(self.args@))
    }
}

pub open spec fn invocation_views(v: Seq<Invocation>) -> Seq<(Seq<char>, Seq<Seq<char>>)> {
    v.map_values(|i: Invocation| i@)
}

/// netsh's name of the address family.
pub open spec fn netsh_family(v6: bool) -> Seq<char> {
    if v6 {
        "ipv6"@
    } else {
        "ipv4"@
    }
}

/// NetworkManager's name of the DNS setting of the address family.
pub open spec fn nmcli_setting(v6: bool) -> Seq<char> {
    if v6 {
        "ipv6.dns"@
    } else {
        "ipv4.dns"@
    }
}

/// The commands that give `adapter` the profile's servers on the platform:
/// on Windows, set the primary and then add the secondary at index 2; on
/// Linux, one change of the connection's DNS setting to both addresses.
pub open spec fn static_plan_of(p: Platform, dns: DnsServer, adapter: Seq<char>) -> Seq<
    (Seq<char>, Seq<Seq<char>>),
> {
    match p {
        Platform::Windows => seq![
            ("netsh"@, seq![
                "interface"@,
                netsh_family(dns.v6),
                "set"@,
                "dnsservers"@,
                adapter,
                "static"@,
                dns.primary@,
                "primary"@,
            ]),
            ("netsh"@, seq![
                "interface"@,
                netsh_family(dns.v6),
                "add"@,
                "dnsservers"@,
                adapter,
                dns.secondary@,
                "index=2"@,
            ]),
        ],
        Platform::Linux => seq![
            ("nmcli"@, seq![
                "connection"@,
                "modify"@,
                adapter,
                nmcli_setting(dns.v6),
                dns.primary@ + " "@ + dns.secondary@,
            ]),
        ],
    }
}

/// The command that makes `adapter` take its DNS servers from DHCP again
/// (Windows only).
pub open spec fn dhcp_plan_of(adapter: Seq<char>, v6: bool) -> (Seq<char>, Seq<Seq<char>>) {
    ("netsh"@, seq!["interface"@, netsh_family(v6), "set"@, "dnsservers"@, adapter, "source=dhcp"@])
}

fn text(s: &str) -> (r: String)
    ensures
        r@ == s@,
{
    <String as StringExecFns>::from_str(s)
}

fn netsh_family_text(v6: bool) -> (r: String)
    ensures
        r@ == netsh_family(v6),
{
    if v6 {
        text("ipv6")
    } else {
        text("ipv4")
    }
}

impl Windows {
    /// The name of the file that holds the saved profiles.
    pub fn config_file() -> (r: &'static str)
        ensures
            r@ == "rdns_servers.json"@,
    {
        "rdns_servers.json"
    }

    /// Sets the primary server, then adds the secondary one at index 2.
    pub fn set_static(dns: &DnsServer, adapter: &String) -> (r: Vec<Invocation>)
        ensures
            invocation_views(r@) == static_plan_of(Platform::Windows, *dns, adapter@),
    {
        let set_args = vec![
            text("interface"),
            netsh_family_text(dns.v6),
            text("set"),
            text("dnsservers"),
            adapter.clone(),
            text("static"),
            dns.primary.clone(),
            text("primary"),
        ];
        let add_args = vec![
            text("interface"),
            netsh_family_text(dns.v6),
            text("add"),
            text("dnsservers"),
            adapter.clone(),
            dns.secondary.clone(),
            text("index=2"),
        ];
        let set = Invocation { program: text("netsh"), args: set_args };
        let add = Invocation { program: text("netsh"), args: add_args };
        assert(set@.1 =~= static_plan_of(Platform::Windows, *dns, adapter@)[0].1);
        assert(add@.1 =~= static_plan_of(Platform::Windows, *dns, adapter@)[1].1);
        let r = vec![set, add];
        assert(invocation_views(r@) =~= static_plan_of(Platform::Windows, *dns, adapter@));
        r
    }

    /// Makes the adapter take its DNS servers from DHCP.
    pub fn set_dhcp(adapter: &String, v6: bool) -> (r: Invocation)
        ensures
            r@ == dhcp_plan_of(adapter@, v6),
    {
        let args = vec![
            text("interface"),
            netsh_family_text(v6),
            text("set"),
            text("dnsservers"),
            adapter.clone(),
            text("source=dhcp"),
        ];
        let r = Invocation { program: text("netsh"), args };
        assert(r@.1 =~= dhcp_plan_of(adapter@, v6).1);
        r
    }

    /// The adapters that `netsh interface show interface` lists as connected.
    pub fn active_connections(report: &str) -> (r: Vec<String>)
        ensures
            string_views(r@) == active_adapters(Platform::Windows, report@),
    {
        Platform::Windows.active_connections(report)
    }
}

impl Linux {
    /// Sets both servers in one change of the connection's DNS setting.
    pub fn set_static(dns: &DnsServer, adapter: &String) -> (r: Vec<Invocation>)
        ensures
            invocation_views(r@) == static_plan_of(Platform::Linux, *dns, adapter@),
    {
        let setting = if dns.v6 {
            text("ipv6.dns")
        } else {
            text("ipv4.dns")
        };
        let both = dns.primary.clone().concat(" ").concat(dns.secondary.as_str());
        let args = vec![text("connection"), text("modify"), adapter.clone(), setting, both];
        let modify = Invocation { program: text("nmcli"), args };
        assert(modify@.1 =~= static_plan_of(Platform::Linux, *dns, adapter@)[0].1);
        let r = vec![modify];
        assert(invocation_views(r@) =~= static_plan_of(Platform::Linux, *dns, adapter@));
        r
    }

    /// Resetting DNS to DHCP is not offered on this platform.
    pub fn set_dhcp(adapter: &String, v6: bool) -> (r: Result<Invocation, ApplyError>)
        ensures
            r matches Err(ApplyError::Unsupported),
    {
        Err(ApplyError::Unsupported)
    }

    /// The adapters that `nmcli device status` lists as connected.
    pub fn active_connections(report: &str) -> (r: Vec<String>)
        ensures
            string_views(r@) == active_adapters(Platform::Linux, report@),
    {
        Platform::Linux.active_connections(report)
    }
}

impl Platform {
    /// The platform's commands that give `adapter` the profile's servers.
    pub fn static_plan(&self, dns: &DnsServer, adapter: &String) -> (r: Vec<Invocation>)
        ensures
            invocation_views(r@) == static_plan_of(*self, *dns, adapter@),
    {
        match self {
            Platform::Windows => Windows::set_static(dns, adapter),
            Platform::Linux => Linux::set_static(dns, adapter),
        }
    }

    /// The platform's commands that reset `adapter` to DHCP, where offered.
    pub fn dhcp_plan(&self, adapter: &String, v6: bool) -> (r: Result<Vec<Invocation>, ApplyError>)
        ensures
            *self == Platform::Linux <==> r matches Err(ApplyError::Unsupported),
            *self == Platform::Windows ==> (r matches Ok(v) && invocation_views(v@) == seq![
                dhcp_plan_of(adapter@, v6),
            ]),
    {
        match self {
            Platform::Windows => {
                let r = vec![Windows::set_dhcp(adapter, v6)];
                assert(invocation_views(r@) =~= seq![dhcp_plan_of(adapter@, v6)]);
                Ok(r)
            },
            Platform::Linux => match Linux::set_dhcp(adapter, v6) {
                Ok(i) => Ok(vec![i]),
                Err(e) => Err(e),
            },
        }
    }
}

/// What came of running one privileged command.
#[derive(Debug)]
pub enum Outcome {
    /// It ran and exited successfully.
    Success,
    /// It could not be started with elevated rights; the detail says why.
    ElevationFailed(String),
    /// It ran and exited with a failure status.
    ExitFailure(Option<i32>),
}

/// What to do next in a run of a plan.
#[derive(Debug)]
pub enum Step {
    /// Run the command at this index of the plan.
    Run(usize),
    /// Every command succeeded.
    Finished,
    /// Stop: a command failed.
    Failed(ApplyError),
}

/// The next step of a run of a plan of `plan_len` commands, of which
/// `completed` have been run, the last with outcome `last`: a failure stops
/// the run and is reported as it came, with the index of the failed command.
pub open spec fn step_of(plan_len: nat, completed: nat, last: Outcome) -> Step {
    match last {
        Outcome::ElevationFailed(detail) => Step::Failed(
            ApplyError::ElevationFailed { step: (completed - 1) as usize, detail },
        ),
        Outcome::ExitFailure(code) => Step::Failed(
            ApplyError::CommandFailed { step: (completed - 1) as usize, code },
        ),
        Outcome::Success => if completed < plan_len {
            Step::Run(completed as usize)
        } else {
            Step::Finished
        },
    }
}

/// Decides the next step of a run of a plan. A run starts with no command
/// completed and `Outcome::Success`.
pub fn next_step(plan_len: usize, completed: usize, last: &Outcome) -> (r: Step)
    requires
        completed <= plan_len,
        completed == 0 ==> last is Success,
    ensures
        r == step_of(plan_len as nat, completed as nat, *last),
{
    match last {
        Outcome::ElevationFailed(detail) => Step::Failed(
            ApplyError::ElevationFailed { step: completed - 1, detail: detail.clone() },
        ),
        Outcome::ExitFailure(code) => Step::Failed(
            ApplyError::CommandFailed { step: completed - 1, code: *code },
        ),
        Outcome::Success => if completed < plan_len {
            Step::Run(completed)
        } else {
            Step::Finished
        },
    }
}

/// When the first command of a plan fails, the run stops: the second command
/// is never started, and the failure is reported as it came, against the first
/// command.
pub proof fn lemma_first_failure_stops(plan_len: nat, last: Outcome)
    requires
        plan_len >= 1,
        !(last is Success),
    ensures
        step_of(plan_len, 1, last) is Failed,
        last matches Outcome::ElevationFailed(d) ==> step_of(plan_len, 1, last) == Step::Failed(
            ApplyError::ElevationFailed { step: 0, detail: d },
        ),
        last matches Outcome::ExitFailure(c) ==> step_of(plan_len, 1, last) == Step::Failed(
            ApplyError::CommandFailed { step: 0, code: c },
        ),
{
}

/// A status report that lists no active adapter leaves nothing to act on,
/// whatever the choice.
pub proof fn lemma_no_adapter_is_error(p: Platform, report: Seq<char>, choice: Option<usize>)
    requires
        active_adapters(p, report).len() == 0,
    ensures
        selected(active_adapters(p, report), choice) is None,
{
}

/// With exactly one active adapter, that adapter is acted on and the choice
/// plays no part.
pub proof fn lemma_single_adapter_needs_no_choice(
    adapters: Seq<Seq<char>>,
    c1: Option<usize>,
    c2: Option<usize>,
)
    requires
        adapters.len() == 1,
    ensures
        selected(adapters, c1) == Some(adapters[0]),
        selected(adapters, c1) == selected(adapters, c2),
{
}

/// The service that applies profiles: it knows its platform's conventions.
pub struct DnsInterface {
    pub platform: Platform,
}

/// The platform's path separator.
pub open spec fn separator(p: Platform) -> char {
    match p {
        Platform::Linux => '/',
        Platform::Windows => '\\',
    }
}

impl DnsInterface {
    pub fn new(platform: Platform) -> (r: Self)
        ensures
            r.platform == platform,
    {
        DnsInterface { platform }
    }

    /// The directory of the saved profiles under the user's configuration directory.
    pub fn config_dir(&self, base: &str) -> (r: String)
        ensures
            r@ == base@.push(separator(self.platform)) + "rdns"@,
    {
        let sep = match self.platform {
            Platform::Linux => '/',
            Platform::Windows => '\\',
        };
        let mut v = to_chars(base);
        v.push(sep);
        from_chars(&v).concat("rdns")
    }

    /// The file of the saved profiles under the user's configuration directory.
    pub fn config_path(&self, base: &str) -> (r: String)
        ensures
            r@ == base@.push(separator(self.platform)) + "rdns"@ + seq![separator(self.platform)]
                + "rdns_servers.json"@,
    {
        let dir = self.config_dir(base);
        let sep = match self.platform {
            Platform::Linux => '/',
            Platform::Windows => '\\',
        };
        let mut v = to_chars(dir.as_str());
        v.push(sep);
        let r = from_chars(&v).concat(Windows::config_file());
        assert(v@ =~= dir@ + seq![sep]);
        r
    }

    /// The active adapters that the platform's status report lists.
    pub fn active_connections(&self, report: &str) -> (r: Vec<String>)
        ensures
            string_views(r@) == active_adapters(self.platform, report@),
    {
        self.platform.active_connections(report)
    }

    /// The adapter to act on, from the platform's status report and, where
    /// several adapters are active, the caller's choice among them.
    pub fn target_adapter(&self, report: &str, choice: Option<usize>) -> (r: Result<
        String,
        ApplyError,
    >)
        ensures
            active_adapters(self.platform, report@).len() == 0 ==> r matches Err(
                ApplyError::NoActiveAdapter,
            ),
            r is Ok <==> selected(active_adapters(self.platform, report@), choice) is Some,
            r matches Ok(a) ==> Some(a@) == selected(
                active_adapters(self.platform, report@),
                choice,
            ),
    {
        let adapters = self.active_connections(report);
        select_adapter(&adapters, choice)
    }

    /// The commands that give `adapter` the profile's servers.
    pub fn static_commands(&self, dns: &DnsServer, adapter: &String) -> (r: Vec<Invocation>)
        ensures
            invocation_views(r@) == static_plan_of(self.platform, *dns, adapter@),
    {
        self.platform.static_plan(dns, adapter)
    }

    /// The commands that reset `adapter` to DHCP, where the platform offers it.
    pub fn dhcp_commands(&self, adapter: &String, v6: bool) -> (r: Result<
        Vec<Invocation>,
        ApplyError,
    >)
        ensures
            self.platform == Platform::Linux <==> r matches Err(ApplyError::Unsupported),
            self.platform == Platform::Windows ==> (r matches Ok(v) && invocation_views(v@)
                == seq![dhcp_plan_of(adapter@, v6)]),
    {
        self.platform.dhcp_plan(adapter, v6)
    }
}

} // verus!
