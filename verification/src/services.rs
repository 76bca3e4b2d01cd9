//! The services backend's engine-side logic: the system-service screen,
//! the description convention that carries the backend-internal service
//! identifier, and the decisions the engine makes without touching the
//! service control manager. The scanning and mutating subprocess calls
//! live with the host.
use vstd::prelude::*;
use vstd::string::StrSliceExecFns;
use vstd::string::StringExecFns;
use crate::models::{ActionFailure, ErrorKind, StartupEntry};
use crate::text::{contains_sub, has_prefix, has_sub, starts_with_str, str_eq, trim_exec, trim_of};

verus! {

/// Whether a service name belongs to the built-in screen of common
/// system services, which scans leave out of the inventory.
pub open spec fn is_system_service_name(n: Seq<char>) -> bool {
    ||| n == "AudioSrv"@
    ||| n == "BITS"@
    ||| n == "Browser"@
    ||| n == "CryptSvc"@
    ||| n == "DcomLaunch"@
    ||| n == "Dhcp"@
    ||| n == "Dnscache"@
    ||| n == "EventLog"@
    ||| n == "EventSystem"@
    ||| n == "FontCache"@
    ||| n == "gpsvc"@
    ||| n == "hidserv"@
    ||| n == "IKEEXT"@
    ||| n == "iphlpsvc"@
    ||| n == "KeyIso"@
    ||| n == "LanmanServer"@
    ||| n == "LanmanWorkstation"@
    ||| n == "lmhosts"@
    ||| n == "MMCSS"@
    ||| n == "MpsSvc"@
    ||| n == "MSiSCSI"@
    ||| n == "Netlogon"@
    ||| n == "netprofm"@
    ||| n == "NlaSvc"@
    ||| n == "nsi"@
    ||| n == "p2pimsvc"@
    ||| n == "p2psvc"@
    ||| n == "PlugPlay"@
    ||| n == "PolicyAgent"@
    ||| n == "ProfSvc"@
    ||| n == "RasMan"@
    ||| n == "RemoteAccess"@
    ||| n == "RpcEptMapper"@
    ||| n == "RpcSs"@
    ||| n == "SamSs"@
    ||| n == "Schedule"@
    ||| n == "SENS"@
    ||| n == "SessionEnv"@
    ||| n == "Spooler"@
    ||| n == "SysMain"@
    ||| n == "Themes"@
    ||| n == "TrkWks"@
    ||| n == "TrustedInstaller"@
    ||| n == "UmRdpService"@
    ||| n == "VaultSvc"@
    ||| n == "VSS"@
    ||| n == "W32Time"@
    ||| n == "Wcmsvc"@
    ||| n == "WcsPlugInService"@
    ||| n == "WdiServiceHost"@
    ||| n == "Winmgmt"@
    ||| n == "WinRM"@
    ||| n == "WlanSvc"@
    ||| n == "wmiApSrv"@
    ||| n == "WMPNetworkSvc"@
    ||| n == "WSearch"@
    ||| n == "wuauserv"@
    ||| n == "WudfSvc"@
    ||| n == "wscsvc"@
    ||| n == "WbioSrvc"@
    ||| n == "WinHttpAutoProxySvc"@
    ||| n == "WerSvc"@
    ||| n == "WebClient"@
    ||| n == "WaaSMedicSvc"@
    ||| n == "UsoSvc"@
    ||| n == "UevAgentService"@
    ||| n == "TabletInputService"@
    ||| n == "StiSvc"@
    ||| n == "SstpSvc"@
    ||| n == "SSDPSRV"@
    ||| n == "ShellHWDetection"@
    ||| n == "SCardSvr"@
    ||| n == "SCPolicySvc"@
    ||| n == "RpcLocator"@
    ||| n == "RemoteRegistry"@
    ||| n == "RasAuto"@
    ||| n == "QWAVE"@
    ||| n == "PNRPsvc"@
    ||| n == "PcaSvc"@
}

/// The description convention an inventoried service carries: the
/// `Service: ` prefix followed by the backend-internal service name.
pub open spec fn service_description_view(name: Seq<char>) -> Seq<char> {
    "Service: "@ + name
}

/// Scans and mutates service registrations; the engine side holds only
/// the decisions that need no service control manager.
pub struct ServicesScanner;

impl ServicesScanner {
    /// Whether scans screen this service out as a system service.
    pub fn is_system_service(name: &str) -> (r: bool)
        ensures
            r == is_system_service_name(name@),
    {
        str_eq(name, "AudioSrv")
    || str_eq(name, "BITS")
    || str_eq(name, "Browser")
    || str_eq(name, "CryptSvc")
    || str_eq(name, "DcomLaunch")
    || str_eq(name, "Dhcp")
    || str_eq(name, "Dnscache")
    || str_eq(name, "EventLog")
    || str_eq(name, "EventSystem")
    || str_eq(name, "FontCache")
    || str_eq(name, "gpsvc")
    || str_eq(name, "hidserv")
    || str_eq(name, "IKEEXT")
    || str_eq(name, "iphlpsvc")
    || str_eq(name, "KeyIso")
    || str_eq(name, "LanmanServer")
    || str_eq(name, "LanmanWorkstation")
    || str_eq(name, "lmhosts")
    || str_eq(name, "MMCSS")
    || str_eq(name, "MpsSvc")
    || str_eq(name, "MSiSCSI")
    || str_eq(name, "Netlogon")
    || str_eq(name, "netprofm")
    || str_eq(name, "NlaSvc")
    || str_eq(name, "nsi")
    || str_eq(name, "p2pimsvc")
    || str_eq(name, "p2psvc")
    || str_eq(name, "PlugPlay")
    || str_eq(name, "PolicyAgent")
    || str_eq(name, "ProfSvc")
    || str_eq(name, "RasMan")
    || str_eq(name, "RemoteAccess")
    || str_eq(name, "RpcEptMapper")
    || str_eq(name, "RpcSs")
    || str_eq(name, "SamSs")
    || str_eq(name, "Schedule")
    || str_eq(name, "SENS")
    || str_eq(name, "SessionEnv")
    || str_eq(name, "Spooler")
    || str_eq(name, "SysMain")
    || str_eq(name, "Themes")
    || str_eq(name, "TrkWks")
    || str_eq(name, "TrustedInstaller")
    || str_eq(name, "UmRdpService")
    || str_eq(name, "VaultSvc")
    || str_eq(name, "VSS")
    || str_eq(name, "W32Time")
    || str_eq(name, "Wcmsvc")
    || str_eq(name, "WcsPlugInService")
    || str_eq(name, "WdiServiceHost")
    || str_eq(name, "Winmgmt")
    || str_eq(name, "WinRM")
    || str_eq(name, "WlanSvc")
    || str_eq(name, "wmiApSrv")
    || str_eq(name, "WMPNetworkSvc")
    || str_eq(name, "WSearch")
    || str_eq(name, "wuauserv")
    || str_eq(name, "WudfSvc")
    || str_eq(name, "wscsvc")
    || str_eq(name, "WbioSrvc")
    || str_eq(name, "WinHttpAutoProxySvc")
    || str_eq(name, "WerSvc")
    || str_eq(name, "WebClient")
    || str_eq(name, "WaaSMedicSvc")
    || str_eq(name, "UsoSvc")
    || str_eq(name, "UevAgentService")
    || str_eq(name, "TabletInputService")
    || str_eq(name, "StiSvc")
    || str_eq(name, "SstpSvc")
    || str_eq(name, "SSDPSRV")
    || str_eq(name, "ShellHWDetection")
    || str_eq(name, "SCardSvr")
    || str_eq(name, "SCPolicySvc")
    || str_eq(name, "RpcLocator")
    || str_eq(name, "RemoteRegistry")
    || str_eq(name, "RasAuto")
    || str_eq(name, "QWAVE")
    || str_eq(name, "PNRPsvc")
    || str_eq(name, "PcaSvc")
    }

    /// Builds the description a service entry carries.
    pub fn service_description(name: &str) -> (r: String)
        ensures
            r@ == service_description_view(name@),
    {
        let mut s = String::new();
        s.append("Service: ");
        s.append(name);
        s
    }

    /// The backend-internal service name an entry addresses, read back
    /// from the description convention; an entry without it cannot be
    /// addressed and is refused.
    pub fn backend_service_name(entry: &StartupEntry) -> (r: Result<String, ActionFailure>)
        ensures
            match r {
                Ok(name) => (entry.description matches Some(d) && has_prefix(d@, "Service: "@)
                    && name@ == d@.skip("Service: "@.len() as int)),
                Err(f) => f.kind == ErrorKind::NotFound && f.message@ == "Invalid service entry"@
                    && match entry.description {
                    Some(d) => !has_prefix(d@, "Service: "@),
                    None => true,
                },
            },
    {
        if let Some(d) = &entry.description {
            if starts_with_str(d.as_str(), "Service: ") {
                let plen = service_prefix_len();
                let rest = d.as_str().substring_char(plen, d.as_str().unicode_len());
                proof {
                    assert(rest@ =~= d@.skip("Service: "@.len() as int));
                }
                let mut name = String::new();
                name.append(rest);
                return Ok(name);
            }
        }
        Err(ActionFailure {
            kind: ErrorKind::NotFound,
            message: String::from_str("Invalid service entry"),
        })
    }

    /// Service removal is refused outright: deleting a service safely
    /// needs it stopped first and administrative rights, so the backend
    /// declares the operation unsupported for every entry.
    pub fn remove_service(_entry: &StartupEntry) -> (r: Result<(), ActionFailure>)
        ensures
            r matches Err(f) && f.kind == ErrorKind::NotSupported && f.message@
                == "Service removal is not implemented for safety reasons"@,
    {
        Err(ActionFailure {
            kind: ErrorKind::NotSupported,
            message: String::from_str("Service removal is not implemented for safety reasons"),
        })
    }
}

/// The character count of the `Service: ` convention prefix.
fn service_prefix_len() -> (r: usize)
    ensures
        r == "Service: "@.len(),
{
    proof {
        reveal_strlit("Service: ");
    }
    9
}


/// The strings of a line list, as character sequences.
pub open spec fn line_views(v: Seq<String>) -> Seq<Seq<char>> {
    v.map_values(|l: String| l@)
}

/// The name pairs of a pair list, as character sequences.
pub open spec fn pair_views(v: Seq<(String, String)>) -> Seq<(Seq<char>, Seq<char>)> {
    v.map_values(|p: (String, String)| (p.0@, p.1@))
}

/// The string of an optional name, as a character sequence.
pub open spec fn opt_view(v: Option<String>) -> Option<Seq<char>> {
    match v {
        Some(s) => Some(s@),
        None => None,
    }
}

/// The (service name, display name) pairs that `sc query` output lists,
/// in order: a `SERVICE_NAME:` line opens a service, and each
/// `DISPLAY_NAME:` line while one is open yields a pair. Lines are
/// trimmed, so carriage returns and indentation do not matter.
pub open spec fn sc_pairs(lines: Seq<Seq<char>>, current: Option<Seq<char>>) -> Seq<
    (Seq<char>, Seq<char>),
>
    decreases lines.len(),
{
    if lines.len() == 0 {
        Seq::empty()
    } else {
        let l = trim_of(lines[0]);
        if has_prefix(l, "SERVICE_NAME:"@) {
            sc_pairs(lines.skip(1), Some(trim_of(l.skip("SERVICE_NAME:"@.len() as int))))
        } else {
            match current {
                Some(c) => if has_prefix(l, "DISPLAY_NAME:"@) {
                    seq![(c, trim_of(l.skip("DISPLAY_NAME:"@.len() as int)))] + sc_pairs(
                        lines.skip(1),
                        current,
                    )
                } else {
                    sc_pairs(lines.skip(1), current)
                },
                None => sc_pairs(lines.skip(1), current),
            }
        }
    }
}

impl ServicesScanner {
    /// Reads the (service name, display name) pairs out of `sc query`
    /// output, given as its lines.
    pub fn parse_sc_query(lines: &Vec<String>) -> (r: Vec<(String, String)>)
        ensures
            pair_views(r@) == sc_pairs(line_views(lines@), None),
    {
        let ghost all = line_views(lines@);
        let mut out: Vec<(String, String)> = Vec::new();
        let mut current: Option<String> = None;
        proof {
            assert(all.skip(0) =~= all);
            assert(pair_views(out@) =~= Seq::<(Seq<char>, Seq<char>)>::empty());
            assert(pair_views(out@) + sc_pairs(all, None) =~= sc_pairs(all, None));
        }
        let mut i: usize = 0;
        while i < lines.len()
            invariant
                i <= lines@.len(),
                all == line_views(lines@),
                sc_pairs(all, None) == pair_views(out@) + sc_pairs(
                    all.skip(i as int),
                    opt_view(current),
                ),
            decreases lines@.len() - i,
        {
            let ghost rest0 = all.skip(i as int);
            let ghost cur0 = opt_view(current);
            let ghost out0 = out@;
            proof {
                assert(rest0[0] == all[i as int]);
                assert(rest0.skip(1) =~= all.skip(i + 1));
                assert(all[i as int] == lines@[i as int]@);
            }
            let t = trim_exec(lines[i].as_str());
            if starts_with_str(t, "SERVICE_NAME:") {
                let plen = sc_label_len("SERVICE_NAME:");
                let rest = t.substring_char(plen, t.unicode_len());
                proof {
                    assert(rest@ =~= trim_of(all[i as int]).skip("SERVICE_NAME:"@.len() as int));
                }
                let name = trim_exec(rest);
                current = Some(<String as StringExecFns>::from_str(name));
                proof {
                    assert(opt_view(current) == Some(
                        trim_of(trim_of(rest0[0]).skip("SERVICE_NAME:"@.len() as int)),
                    ));
                }
            } else if starts_with_str(t, "DISPLAY_NAME:") {
                if let Some(c) = &current {
                    let plen = sc_label_len("DISPLAY_NAME:");
                    let rest = t.substring_char(plen, t.unicode_len());
                    proof {
                        assert(rest@ =~= trim_of(all[i as int]).skip(
                            "DISPLAY_NAME:"@.len() as int,
                        ));
                    }
                    let display = trim_exec(rest);
                    out.push((c.clone(), <String as StringExecFns>::from_str(display)));
                    let ghost pushed = (
                        c@,
                        trim_of(trim_of(rest0[0]).skip("DISPLAY_NAME:"@.len() as int)),
                    );
                    proof {
                        assert(pair_views(out@) =~= pair_views(out0).push(pushed));
                        assert(pair_views(out0).push(pushed) + sc_pairs(all.skip(i + 1), cur0)
                            =~= pair_views(out0) + (seq![pushed] + sc_pairs(
                            all.skip(i + 1),
                            cur0,
                        )));
                    }
                }
            }
            i += 1;
        }
        proof {
            assert(all.skip(all.len() as int) =~= Seq::<Seq<char>>::empty());
            assert(pair_views(out@) + Seq::<(Seq<char>, Seq<char>)>::empty() =~= pair_views(out@));
        }
        out
    }

    /// Whether `sc qc` output says the service starts on its own or on
    /// demand — the states the inventory treats as enabled.
    pub fn sc_config_indicates_enabled(output: &str) -> (r: bool)
        ensures
            r == (has_sub(output@, "AUTO_START"@) || has_sub(output@, "DEMAND_START"@)),
    {
        contains_sub(output, "AUTO_START") || contains_sub(output, "DEMAND_START")
    }
}

/// The character count of one `sc query` field label.
fn sc_label_len(label: &str) -> (r: usize)
    requires
        label@ == "SERVICE_NAME:"@ || label@ == "DISPLAY_NAME:"@,
    ensures
        r == label@.len(),
{
    proof {
        reveal_strlit("SERVICE_NAME:");
        reveal_strlit("DISPLAY_NAME:");
    }
    13
}


/// The text after the first colon of `s`; empty when there is none.
pub open spec fn after_colon(s: Seq<char>) -> Seq<char>
    decreases s.len(),
{
    if s.len() == 0 {
        s
    } else if s[0] == ':' {
        s.skip(1)
    } else {
        after_colon(s.skip(1))
    }
}

/// The text before the first colon of `s`; all of `s` when there is none.
pub open spec fn until_colon(s: Seq<char>) -> Seq<char>
    decreases s.len(),
{
    if s.len() == 0 {
        s
    } else if s[0] == ':' {
        Seq::empty()
    } else {
        seq![s[0]] + until_colon(s.skip(1))
    }
}

/// The binary path that `sc qc` output names: on the first line whose
/// trimmed text opens with the path field's label, the text between the
/// line's first and second colons, trimmed. A line without a colon yields
/// nothing, and later lines are not consulted.
pub open spec fn binary_path_of(lines: Seq<Seq<char>>) -> Option<Seq<char>>
    decreases lines.len(),
{
    if lines.len() == 0 {
        None
    } else if has_prefix(trim_of(lines[0]), "BINARY_PATH_NAME"@) {
        if lines[0].contains(':') {
            Some(trim_of(until_colon(after_colon(lines[0]))))
        } else {
            None
        }
    } else {
        binary_path_of(lines.skip(1))
    }
}

/// The position of the first colon of `s`, or its length when none.
fn first_colon(s: &str) -> (j: usize)
    ensures
        j <= s@.len(),
        forall|k: int| 0 <= k < j ==> s@[k] != ':',
        j < s@.len() ==> s@[j as int] == ':',
{
    let n = s.unicode_len();
    let mut j: usize = 0;
    while j < n && s.get_char(j) != ':'
        invariant
            j <= n,
            n == s@.len(),
            forall|k: int| 0 <= k < j ==> s@[k] != ':',
        decreases n - j,
    {
        j += 1;
    }
    j
}

/// Scanning past `j` colon-free characters pins `after_colon` and
/// `until_colon`.
proof fn lemma_colon_split(s: Seq<char>, j: int)
    requires
        0 <= j <= s.len(),
        forall|k: int| 0 <= k < j ==> s[k] != ':',
        j < s.len() ==> s[j] == ':',
    ensures
        until_colon(s) == s.subrange(0, j),
        j < s.len() ==> after_colon(s) == s.skip(j + 1),
        j == s.len() ==> after_colon(s) == Seq::<char>::empty(),
        s.contains(':') == (j < s.len()),
    decreases j,
{
    if s.len() == 0 {
        assert(until_colon(s) =~= s.subrange(0, j));
        assert(after_colon(s) =~= Seq::<char>::empty());
        assert(!s.contains(':'));
    } else if j == 0 {
        if j < s.len() {
            assert(until_colon(s) =~= s.subrange(0, 0));
            assert(s.contains(':')) by {
                assert(s[0] == ':');
            }
        }
    } else {
        let rest = s.skip(1);
        assert(forall|k: int| 0 <= k < j - 1 ==> rest[k] == s[k + 1] && #[trigger] rest[k] != ':');
        lemma_colon_split(rest, j - 1);
        assert(seq![s[0]] + rest.subrange(0, j - 1) =~= s.subrange(0, j));
        if j < s.len() {
            assert(rest.skip(j) =~= s.skip(j + 1));
        }
        if s.contains(':') {
            let w = choose|w: int| 0 <= w < s.len() && s[w] == ':';
            if j == s.len() {
                assert(rest[w - 1] == ':');
                assert(rest.contains(':'));
            }
        }
        if j < s.len() {
            assert(s.contains(':')) by {
                assert(s[j] == ':');
            }
        }
    }
}

impl ServicesScanner {
    /// Reads the binary path out of `sc qc` output, given as its lines;
    /// `None` when no line names one.
    pub fn parse_binary_path(lines: &Vec<String>) -> (r: Option<String>)
        ensures
            match r {
                Some(p) => binary_path_of(line_views(lines@)) == Some(p@),
                None => binary_path_of(line_views(lines@)) is None,
            },
    {
        let ghost all = line_views(lines@);
        proof {
            assert(all.skip(0) =~= all);
        }
        let mut i: usize = 0;
        while i < lines.len()
            invariant
                i <= lines@.len(),
                all == line_views(lines@),
                binary_path_of(all) == binary_path_of(all.skip(i as int)),
            decreases lines@.len() - i,
        {
            proof {
                assert(all.skip(i as int)[0] == all[i as int]);
                assert(all.skip(i as int).skip(1) =~= all.skip(i + 1));
                assert(all[i as int] == lines@[i as int]@);
            }
            let t = trim_exec(lines[i].as_str());
            if starts_with_str(t, "BINARY_PATH_NAME") {
                let line = lines[i].as_str();
                let j = first_colon(line);
                proof {
                    lemma_colon_split(line@, j as int);
                }
                if j < line.unicode_len() {
                    let tail = line.substring_char(j + 1, line.unicode_len());
                    proof {
                        assert(tail@ =~= line@.skip(j + 1));
                    }
                    let j2 = first_colon(tail);
                    proof {
                        lemma_colon_split(tail@, j2 as int);
                    }
                    let seg = tail.substring_char(0, j2);
                    proof {
                        assert(seg@ =~= tail@.subrange(0, j2 as int));
                    }
                    let value = trim_exec(seg);
                    return Some(<String as StringExecFns>::from_str(value));
                } else {
                    return None;
                }
            }
            i += 1;
        }
        proof {
            assert(all.skip(all.len() as int) =~= Seq::<Seq<char>>::empty());
        }
        None
    }
}

} // verus!
