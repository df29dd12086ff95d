use vstd::prelude::*;
use vstd::string::*;
use crate::settings::{trimmed_is_empty, Settings};
use crate::text::{
    is_space, is_space_char, trim_end, trim_end_exec, trim_start, trim_start_exec, trimmed,
};

verus! {

broadcast use vstd::string::group_string_axioms;

/// A port of the sequencer as `aconnect -l` lists it.
#[derive(Clone, Debug)]
pub struct SeqPort {
    pub client_id: u32,
    pub port_id: u32,
    pub client_name: String,
    pub port_name: String,
}

/// Client id, port id, client name and port name of a listed port.
pub type PortModel = (u32, u32, Seq<char>, Seq<char>);

/// What a `SeqPort` holds.
pub open spec fn port_view(p: SeqPort) -> PortModel {
    (p.client_id, p.port_id, p.client_name@, p.port_name@)
}

/// Index of the first `c` in `s` at or after `i`.
pub open spec fn find_char(s: Seq<char>, c: char, i: int) -> Option<int>
    decreases s.len() - i,
{
    if i < 0 || i >= s.len() {
        None
    } else if s[i] == c {
        Some(i)
    } else {
        find_char(s, c, i + 1)
    }
}

/// The text after the first quote, up to the next quote or the end.
pub open spec fn quoted(s: Seq<char>) -> Option<Seq<char>> {
    match find_char(s, '\'', 0) {
        Some(a) => Some(
            s.subrange(
                a + 1,
                match find_char(s, '\'', a + 1) {
                    Some(b) => b,
                    None => s.len() as int,
                },
            ),
        ),
        None => None,
    }
}

/// Whether every character of `s` is a decimal digit.
pub open spec fn all_digits(s: Seq<char>) -> bool {
    forall|i: int| 0 <= i < s.len() ==> '0' <= #[trigger] s[i] <= '9'
}

/// Value of a string of decimal digits.
pub open spec fn digits_value(s: Seq<char>) -> int
    decreases s.len(),
{
    if s.len() == 0 {
        0
    } else {
        digits_value(s.drop_last()) * 10 + (s.last() as int - '0' as int)
    }
}

/// An unsigned 32-bit decimal number: digits after an optional '+'.
pub open spec fn parse_u32(s: Seq<char>) -> Option<u32> {
    let d = if s.len() > 0 && s[0] == '+' {
        s.subrange(1, s.len() as int)
    } else {
        s
    };
    if d.len() > 0 && all_digits(d) && digits_value(d) <= u32::MAX {
        Some(digits_value(d) as u32)
    } else {
        None
    }
}

/// Whether a line opens a client: it starts with "client ".
pub open spec fn is_client_line(t: Seq<char>) -> bool {
    t.len() >= 7 && t.subrange(0, 7) == seq!['c', 'l', 'i', 'e', 'n', 't', ' ']
}

/// Id and name of a client line "client <id>: '<name>' ...".
pub open spec fn client_of(t: Seq<char>) -> (Option<u32>, Option<Seq<char>>) {
    let rest = t.subrange(7, t.len() as int);
    match find_char(rest, ':', 0) {
        Some(k) => (
            parse_u32(trim_end(trim_start(rest.subrange(0, k)))),
            quoted(rest.subrange(k + 1, rest.len() as int)),
        ),
        None => (parse_u32(trim_end(trim_start(rest))), None),
    }
}

/// First whitespace-separated word of a line that has no leading whitespace.
pub open spec fn first_word(l: Seq<char>) -> Seq<char> {
    l.subrange(
        0,
        match find_space(l, 0) {
            Some(k) => k,
            None => l.len() as int,
        },
    )
}

/// Index of the first whitespace in `s` at or after `i`.
pub open spec fn find_space(s: Seq<char>, i: int) -> Option<int>
    decreases s.len() - i,
{
    if i < 0 || i >= s.len() {
        None
    } else if is_space(s[i]) {
        Some(i)
    } else {
        find_space(s, i + 1)
    }
}

/// Id and name of a port line "<id> '<name>' ...".
pub open spec fn port_of(t: Seq<char>) -> Option<(u32, Seq<char>)> {
    let l = trim_start(t);
    let w = first_word(l);
    if all_digits(w) && find_char(l, '\'', 0) is Some {
        match (parse_u32(w), quoted(l)) {
            (Some(p), Some(n)) => Some((p, n)),
            _ => None,
        }
    } else {
        None
    }
}

/// End of the line that starts at `i`.
pub open spec fn line_end(t: Seq<char>, i: int) -> int {
    match find_char(t, '\n', i) {
        Some(j) => j,
        None => t.len() as int,
    }
}

/// Ports listed from offset `i` on, under the client last opened (`cid`,
/// `cname`): a client line opens a client, a port line under an opened client
/// lists a port, other lines are skipped.
pub open spec fn ports_from(t: Seq<char>, i: int, cid: Option<u32>, cname: Option<Seq<char>>) -> Seq<
    PortModel,
>
    decreases t.len() - i,
{
    if i < 0 || i > t.len() {
        seq![]
    } else {
        let e = line_end(t, i);
        let line = trim_end(t.subrange(i, e));
        let (out, cid2, cname2) = if is_client_line(line) {
            let (c, n) = client_of(line);
            (Seq::<PortModel>::empty(), c, n)
        } else {
            match (port_of(line), cid, cname) {
                (Some((p, pn)), Some(c), Some(cn)) => (seq![(c, p, cn, pn)], cid, cname),
                _ => (Seq::<PortModel>::empty(), cid, cname),
            }
        };
        if i <= e < t.len() {
            out + ports_from(t, e + 1, cid2, cname2)
        } else {
            out
        }
    }
}

/// The ports of an `aconnect -l` listing, in order.
pub open spec fn listed_ports(t: Seq<char>) -> Seq<PortModel> {
    ports_from(t, 0, None, None)
}

proof fn lemma_find_char(s: Seq<char>, c: char, i: int)
    requires
        0 <= i,
    ensures
        match find_char(s, c, i) {
            Some(j) => i <= j < s.len() && s[j] == c && forall|k: int| i <= k < j ==> s[k] != c,
            None => forall|k: int| i <= k < s.len() ==> s[k] != c,
        },
    decreases s.len() - i,
{
    if i < s.len() && s[i] != c {
        lemma_find_char(s, c, i + 1);
    }
}

fn find_char_exec(s: &str, n: usize, c: char, from: usize) -> (r: usize)
    requires
        n == s@.len(),
        from <= n,
    ensures
        from <= r <= n,
        r < n ==> find_char(s@, c, from as int) == Some(r as int),
        r == n ==> find_char(s@, c, from as int) is None,
{
    let mut k = from;
    while k < n
        invariant
            from <= k <= n,
            n == s@.len(),
            find_char(s@, c, from as int) == find_char(s@, c, k as int),
        decreases n - k,
    {
        if s.get_char(k) == c {
            return k;
        }
        k = k + 1;
    }
    k
}

fn find_space_exec(s: &str, n: usize) -> (r: usize)
    requires
        n == s@.len(),
    ensures
        r <= n,
        r < n ==> find_space(s@, 0) == Some(r as int),
        r == n ==> find_space(s@, 0) is None,
{
    let mut k: usize = 0;
    while k < n
        invariant
            k <= n,
            n == s@.len(),
            find_space(s@, 0) == find_space(s@, k as int),
        decreases n - k,
    {
        let ch = s.get_char(k);
        if is_space_char(ch) {
            return k;
        }
        k = k + 1;
    }
    k
}

proof fn lemma_digits_prefix(s: Seq<char>, k: int)
    requires
        0 <= k <= s.len(),
        all_digits(s),
    ensures
        digits_value(s.subrange(0, k)) <= digits_value(s),
        digits_value(s.subrange(0, k)) >= 0,
    decreases s.len(),
{
    if s.len() > 0 {
        assert(s.drop_last() =~= s.subrange(0, s.len() - 1));
        if k < s.len() {
            lemma_digits_prefix(s.drop_last(), k);
            assert(s.drop_last().subrange(0, k) =~= s.subrange(0, k));
        } else {
            assert(s.subrange(0, k) =~= s);
        }
        lemma_digits_prefix(s.drop_last(), s.len() - 1);
        assert(s.drop_last().subrange(0, s.len() - 1) =~= s.drop_last());
    }
}

fn digits_exec(s: &str, from: usize, n: usize) -> (r: Option<u32>)
    requires
        n == s@.len(),
        from <= n,
    ensures
        ({
            let d = s@.subrange(from as int, n as int);
            r == if d.len() > 0 && all_digits(d) && digits_value(d) <= u32::MAX {
                Some(digits_value(d) as u32)
            } else {
                None::<u32>
            }
        }),
{
    let ghost d = s@.subrange(from as int, n as int);
    if from == n {
        return None;
    }
    let mut k = from;
    let mut v: u64 = 0;
    while k < n
        invariant
            from <= k <= n,
            n == s@.len(),
            d == s@.subrange(from as int, n as int),
            all_digits(s@.subrange(from as int, k as int)),
            v == digits_value(s@.subrange(from as int, k as int)),
            v <= u32::MAX,
        decreases n - k,
    {
        let ch = s.get_char(k);
        if !('0' <= ch && ch <= '9') {
            proof {
                assert(d[k - from] == ch);
            }
            return None;
        }
        let ghost pre = s@.subrange(from as int, k as int);
        let ghost pre1 = s@.subrange(from as int, k + 1);
        proof {
            assert(pre1.drop_last() =~= pre);
            assert(pre1.last() == ch);
        }
        v = v * 10 + (ch as u64 - '0' as u64);
        k = k + 1;
        assert(all_digits(s@.subrange(from as int, k as int)));
        if v > u32::MAX as u64 {
            proof {
                if all_digits(d) {
                    lemma_digits_prefix(d, k - from);
                    assert(d.subrange(0, k - from) =~= s@.subrange(from as int, k as int));
                }
            }
            return None;
        }
    }
    assert(s@.subrange(from as int, k as int) =~= d);
    Some(v as u32)
}

fn parse_u32_exec(s: &str) -> (r: Option<u32>)
    ensures
        r == parse_u32(s@),
{
    let n = s.unicode_len();
    if n > 0 && s.get_char(0) == '+' {
        digits_exec(s, 1, n)
    } else {
        proof {
            assert(s@.subrange(0, n as int) =~= s@);
        }
        digits_exec(s, 0, n)
    }
}

fn quoted_exec(s: &str) -> (r: Option<String>)
    ensures
        match quoted(s@) {
            Some(q) => r matches Some(v) && v@ == q,
            None => r is None,
        },
{
    let n = s.unicode_len();
    let a = find_char_exec(s, n, '\'', 0);
    if a == n {
        return None;
    }
    let b = find_char_exec(s, n, '\'', a + 1);
    Some(s.substring_char(a + 1, b).to_string())
}

/// Whether `s` starts with "client ".
fn is_client_line_exec(s: &str) -> (r: bool)
    ensures
        r == is_client_line(s@),
{
    let n = s.unicode_len();
    if n < 7 {
        return false;
    }
    let r = s.get_char(0) == 'c' && s.get_char(1) == 'l' && s.get_char(2) == 'i' && s.get_char(3)
        == 'e' && s.get_char(4) == 'n' && s.get_char(5) == 't' && s.get_char(6) == ' ';
    proof {
        let w = seq!['c', 'l', 'i', 'e', 'n', 't', ' '];
        if r {
            assert(s@.subrange(0, 7) =~= w);
        } else if s@.subrange(0, 7) == w {
            assert(s@.subrange(0, 7)[0] == s@[0]);
            assert(s@.subrange(0, 7)[1] == s@[1]);
            assert(s@.subrange(0, 7)[2] == s@[2]);
            assert(s@.subrange(0, 7)[3] == s@[3]);
            assert(s@.subrange(0, 7)[4] == s@[4]);
            assert(s@.subrange(0, 7)[5] == s@[5]);
            assert(s@.subrange(0, 7)[6] == s@[6]);
        }
    }
    r
}

/// Id and name of a client line.
fn client_exec(t: &str) -> (r: (Option<u32>, Option<String>))
    requires
        is_client_line(t@),
    ensures
        r.0 == client_of(t@).0,
        match client_of(t@).1 {
            Some(q) => r.1 matches Some(v) && v@ == q,
            None => r.1 is None,
        },
{
    let n = t.unicode_len();
    let rest = t.substring_char(7, n);
    let m = rest.unicode_len();
    let k = find_char_exec(rest, m, ':', 0);
    if k < m {
        let id_part = trim_end_exec(trim_start_exec(rest.substring_char(0, k)));
        let tail = rest.substring_char(k + 1, m);
        (parse_u32_exec(id_part), quoted_exec(tail))
    } else {
        let id_part = trim_end_exec(trim_start_exec(rest));
        (parse_u32_exec(id_part), None)
    }
}

/// Id and name of a port line, if it is one.
fn port_exec(t: &str) -> (r: Option<(u32, String)>)
    ensures
        match port_of(t@) {
            Some((p, q)) => r matches Some((rp, v)) && rp == p && v@ == q,
            None => r is None,
        },
{
    let l = trim_start_exec(t);
    let n = l.unicode_len();
    let e = find_space_exec(l, n);
    let w = l.substring_char(0, e);
    let mut digits = true;
    let mut k: usize = 0;
    while k < e
        invariant
            k <= e,
            e == w@.len(),
            digits == all_digits(w@.subrange(0, k as int)),
        decreases e - k,
    {
        let ch = w.get_char(k);
        if !('0' <= ch && ch <= '9') {
            digits = false;
        }
        k = k + 1;
        proof {
            assert(w@.subrange(0, k as int).drop_last() =~= w@.subrange(0, k - 1));
            if digits {
                assert forall|i: int| 0 <= i < k implies '0' <= #[trigger] w@.subrange(0, k as int)[i] <= '9' by {
                    if i < k - 1 {
                        assert(w@.subrange(0, k as int)[i] == w@.subrange(0, k - 1)[i]);
                    }
                }
            } else {
                if all_digits(w@.subrange(0, k as int)) {
                    assert forall|i: int| 0 <= i < k - 1 implies '0' <= #[trigger] w@.subrange(0, k - 1)[i] <= '9' by {
                        assert(w@.subrange(0, k as int)[i] == w@.subrange(0, k - 1)[i]);
                    }
                    assert(w@.subrange(0, k as int)[k - 1] == ch);
                }
            }
        }
    }
    assert(w@.subrange(0, e as int) =~= w@);
    if !digits || find_char_exec(l, n, '\'', 0) == n {
        return None;
    }
    match (parse_u32_exec(w), quoted_exec(l)) {
        (Some(p), Some(q)) => Some((p, q)),
        _ => None,
    }
}

/// Name of the current client as a sequence of characters.
pub open spec fn name_view(n: Option<String>) -> Option<Seq<char>> {
    match n {
        Some(v) => Some(v@),
        None => None,
    }
}

/// The ports of an `aconnect -l` listing, in order: each port line under the
/// client line that precedes it.
pub fn parse_aconnect_list(output: &str) -> (r: Vec<SeqPort>)
    ensures
        r@.map_values(|p: SeqPort| port_view(p)) == listed_ports(output@),
{
    let n = output.unicode_len();
    let mut ports: Vec<SeqPort> = Vec::new();
    let mut cur_id: Option<u32> = None;
    let mut cur_name: Option<String> = None;
    let mut i: usize = 0;
    assert(ports@.map_values(|p: SeqPort| port_view(p)) =~= Seq::<PortModel>::empty());
    assert(listed_ports(output@) =~= Seq::<PortModel>::empty() + ports_from(output@, 0, None, None));
    loop
        invariant_except_break
            listed_ports(output@) == ports@.map_values(|p: SeqPort| port_view(p)) + ports_from(
                output@,
                i as int,
                cur_id,
                name_view(cur_name),
            ),
        invariant
            i <= n,
            n == output@.len(),
        ensures
            listed_ports(output@) == ports@.map_values(|p: SeqPort| port_view(p)),
        decreases n - i,
    {
        let e = find_char_exec(output, n, '\n', i);
        let line = trim_end_exec(output.substring_char(i, e));
        let ghost cid0 = cur_id;
        let ghost cn0 = name_view(cur_name);
        let ghost before = ports@.map_values(|p: SeqPort| port_view(p));
        let ghost mut out: Seq<PortModel> = Seq::empty();
        if is_client_line_exec(line) {
            let (c, nm) = client_exec(line);
            cur_id = c;
            cur_name = nm;
        } else {
            match port_exec(line) {
                Some((p, pn)) => {
                    match (&cur_id, &cur_name) {
                        (Some(c), Some(cn)) => {
                            let port = SeqPort {
                                client_id: *c,
                                port_id: p,
                                client_name: cn.clone(),
                                port_name: pn,
                            };
                            proof {
                                out = seq![port_view(port)];
                            }
                            ports.push(port);
                        },
                        _ => {},
                    }
                },
                None => {},
            }
        }
        proof {
            let t = output@;
            lemma_find_char(t, '\n', i as int);
            assert(line_end(t, i as int) == e);
            assert(ports@.map_values(|p: SeqPort| port_view(p)) =~= before + out);
            let rest = if i <= e < n {
                ports_from(t, e + 1, cur_id, name_view(cur_name))
            } else {
                Seq::<PortModel>::empty()
            };
            assert(ports_from(t, i as int, cid0, cn0) == out + rest);
            assert(before + (out + rest) =~= (before + out) + rest);
        }
        if e == n {
            assert(ports@.map_values(|p: SeqPort| port_view(p)) + Seq::<PortModel>::empty()
                =~= ports@.map_values(|p: SeqPort| port_view(p)));
            break;
        }
        i = e + 1;
    }
    ports
}

/// Why no bridge could be chosen.
#[derive(Clone, Copy, Debug, PartialEq, Eq, Structural)]
pub enum BridgeError {
    /// The driver's output port is not listed.
    NoDriverOutput,
    /// The driver's input port is not listed.
    NoDriverInput,
    /// No virtual raw-MIDI client is listed.
    NoVirmidiClient,
    /// The virtual raw-MIDI client has no port of the configured number.
    NoVirmidiPort,
}

impl BridgeError {
    /// Describes the error.
    pub fn message(&self) -> String {
        match self {
            BridgeError::NoDriverOutput => "could not find driver output port in `aconnect -l`".to_string(),
            BridgeError::NoDriverInput => "could not find driver input port in `aconnect -l`".to_string(),
            BridgeError::NoVirmidiClient => "no virmidi ALSA sequencer ports found (is snd-virmidi loaded?)".to_string(),
            BridgeError::NoVirmidiPort => "virmidi client found, but not the configured port".to_string(),
        }
    }
}

/// The three ports to connect: the driver's output to the raw-MIDI port,
/// and that port back to the driver's input.
pub struct Bridge {
    pub driver_out: SeqPort,
    pub driver_in: SeqPort,
    pub virmidi: SeqPort,
}

/// Which listed ports a search accepts.
pub enum PortRole {
    DriverOut,
    DriverIn,
    VirmidiClient,
    VirmidiPort,
}

/// Name prefix of the kernel's virtual raw-MIDI clients.
pub open spec fn virmidi_prefix() -> Seq<char> {
    seq!['V', 'i', 'r', 't', 'u', 'a', 'l', ' ', 'R', 'a', 'w', ' ', 'M', 'I', 'D', 'I']
}

/// Whether a listed port plays `role` for the configuration `s`: the driver's
/// output is its client and output port by name, its input is the client
/// named with " In" and the input port; a raw-MIDI client is the configured
/// one, or any whose name starts with "Virtual Raw MIDI" where none is
/// configured; the raw-MIDI port is also of the configured number.
pub open spec fn plays(role: PortRole, p: PortModel, s: Settings) -> bool {
    let virmidi = if trimmed(s.virmidi_client_name@).len() == 0 {
        p.2.len() >= virmidi_prefix().len() && p.2.subrange(0, virmidi_prefix().len() as int)
            == virmidi_prefix()
    } else {
        p.2 == s.virmidi_client_name@
    };
    match role {
        PortRole::DriverOut => p.2 == s.client_name@ && p.3 == s.port_name@,
        PortRole::DriverIn => p.2 == s.client_name@ + seq![' ', 'I', 'n'] && p.3 == s.port_name_in@,
        PortRole::VirmidiClient => virmidi,
        PortRole::VirmidiPort => virmidi && p.1 as int == s.virmidi_port as int,
    }
}

/// Index of the first port from `i` on that plays `role`.
pub open spec fn first_playing(ports: Seq<PortModel>, role: PortRole, s: Settings, i: int) -> Option<int>
    decreases ports.len() - i,
{
    if i < 0 || i >= ports.len() {
        None
    } else if plays(role, ports[i], s) {
        Some(i)
    } else {
        first_playing(ports, role, s, i + 1)
    }
}

/// The outcome of choosing a bridge: the first port of each role, the
/// driver's output, its input, a raw-MIDI client and its port checked in
/// that order.
pub open spec fn bridge_choice(ports: Seq<PortModel>, s: Settings) -> Result<(int, int, int), BridgeError> {
    match first_playing(ports, PortRole::DriverOut, s, 0) {
        None => Err(BridgeError::NoDriverOutput),
        Some(o) => match first_playing(ports, PortRole::DriverIn, s, 0) {
            None => Err(BridgeError::NoDriverInput),
            Some(n) => if first_playing(ports, PortRole::VirmidiClient, s, 0) is None {
                Err(BridgeError::NoVirmidiClient)
            } else {
                match first_playing(ports, PortRole::VirmidiPort, s, 0) {
                    None => Err(BridgeError::NoVirmidiPort),
                    Some(v) => Ok((o, n, v)),
                }
            },
        },
    }
}

proof fn lemma_first_playing(ports: Seq<PortModel>, role: PortRole, s: Settings, i: int)
    requires
        0 <= i,
    ensures
        first_playing(ports, role, s, i) matches Some(k) ==> i <= k < ports.len(),
    decreases ports.len() - i,
{
    if i < ports.len() && !plays(role, ports[i], s) {
        lemma_first_playing(ports, role, s, i + 1);
    }
}

fn starts_with_virmidi(name: &String) -> (r: bool)
    ensures
        r == (name@.len() >= virmidi_prefix().len() && name@.subrange(
            0,
            virmidi_prefix().len() as int,
        ) == virmidi_prefix()),
{
    let prefix = ['V', 'i', 'r', 't', 'u', 'a', 'l', ' ', 'R', 'a', 'w', ' ', 'M', 'I', 'D', 'I'];
    assert(prefix@ =~= virmidi_prefix());
    let s = name.as_str();
    let n = s.unicode_len();
    if n < 16 {
        return false;
    }
    let mut k: usize = 0;
    while k < 16
        invariant
            k <= 16,
            n == s@.len(),
            n >= 16,
            s@ == name@,
            prefix@ == virmidi_prefix(),
            forall|j: int| 0 <= j < k ==> s@[j] == prefix@[j],
        decreases 16 - k,
    {
        if s.get_char(k) != prefix[k] {
            proof {
                assert(name@.subrange(0, 16)[k as int] == s@[k as int]);
            }
            return false;
        }
        k = k + 1;
    }
    assert(name@.subrange(0, 16) =~= virmidi_prefix());
    true
}

/// Index of the first port that plays `role`.
fn find_playing(ports: &[SeqPort], role: &PortRole, s: &Settings, in_name: &String, any_virmidi: bool) -> (r: Option<usize>)
    requires
        in_name@ == s.client_name@ + seq![' ', 'I', 'n'],
        any_virmidi == (trimmed(s.virmidi_client_name@).len() == 0),
    ensures
        match first_playing(ports@.map_values(|p: SeqPort| port_view(p)), *role, *s, 0) {
            Some(i) => r == Some(i as usize) && i < ports@.len(),
            None => r is None,
        },
        r matches Some(k) ==> k < ports@.len(),
{
    let ghost pv = ports@.map_values(|p: SeqPort| port_view(p));
    let mut i: usize = 0;
    while i < ports.len()
        invariant
            i <= ports@.len(),
            pv == ports@.map_values(|p: SeqPort| port_view(p)),
            first_playing(pv, *role, *s, 0) == first_playing(pv, *role, *s, i as int),
            in_name@ == s.client_name@ + seq![' ', 'I', 'n'],
            any_virmidi == (trimmed(s.virmidi_client_name@).len() == 0),
        decreases ports@.len() - i,
    {
        let p = &ports[i];
        let virmidi = if any_virmidi {
            starts_with_virmidi(&p.client_name)
        } else {
            p.client_name == s.virmidi_client_name
        };
        let hit = match role {
            PortRole::DriverOut => p.client_name == s.client_name && p.port_name == s.port_name,
            PortRole::DriverIn => p.client_name == *in_name && p.port_name == s.port_name_in,
            PortRole::VirmidiClient => virmidi,
            PortRole::VirmidiPort => virmidi && p.port_id as u64 == s.virmidi_port as u64,
        };
        assert(pv[i as int] == port_view(ports@[i as int]));
        assert(virmidi == (if trimmed(s.virmidi_client_name@).len() == 0 {
            pv[i as int].2.len() >= virmidi_prefix().len() && pv[i as int].2.subrange(
                0,
                virmidi_prefix().len() as int,
            ) == virmidi_prefix()
        } else {
            pv[i as int].2 == s.virmidi_client_name@
        }));
        assert(hit == plays(*role, pv[i as int], *s));
        if hit {
            return Some(i);
        }
        i = i + 1;
    }
    None
}

fn copy_port(p: &SeqPort) -> (r: SeqPort)
    ensures
        port_view(r) == port_view(*p),
{
    SeqPort {
        client_id: p.client_id,
        port_id: p.port_id,
        client_name: p.client_name.clone(),
        port_name: p.port_name.clone(),
    }
}

/// Chooses the ports to connect from a listing: the first match for each
/// role, or the first role that has none.
pub fn choose_bridge(ports: &[SeqPort], settings: &Settings) -> (r: Result<Bridge, BridgeError>)
    ensures
        match bridge_choice(ports@.map_values(|p: SeqPort| port_view(p)), *settings) {
            Ok((o, n, v)) => r matches Ok(b) && port_view(b.driver_out) == port_view(ports@[o])
                && port_view(b.driver_in) == port_view(ports@[n]) && port_view(b.virmidi)
                == port_view(ports@[v]),
            Err(e) => r == Err::<Bridge, BridgeError>(e),
        },
{
    let ghost pv = ports@.map_values(|p: SeqPort| port_view(p));
    proof {
        lemma_first_playing(pv, PortRole::DriverOut, *settings, 0);
        lemma_first_playing(pv, PortRole::DriverIn, *settings, 0);
        lemma_first_playing(pv, PortRole::VirmidiPort, *settings, 0);
    }
    let in_name = settings.client_name.clone().concat(" In");
    assert(" In"@ =~= seq![' ', 'I', 'n']) by {
        reveal_strlit(" In");
    }
    let any = trimmed_is_empty(settings.virmidi_client_name.as_str());
    let o = match find_playing(ports, &PortRole::DriverOut, settings, &in_name, any) {
        Some(o) => o,
        None => return Err(BridgeError::NoDriverOutput),
    };
    let n = match find_playing(ports, &PortRole::DriverIn, settings, &in_name, any) {
        Some(n) => n,
        None => return Err(BridgeError::NoDriverInput),
    };
    if find_playing(ports, &PortRole::VirmidiClient, settings, &in_name, any).is_none() {
        return Err(BridgeError::NoVirmidiClient);
    }
    let v = match find_playing(ports, &PortRole::VirmidiPort, settings, &in_name, any) {
        Some(v) => v,
        None => return Err(BridgeError::NoVirmidiPort),
    };
    Ok(Bridge {
        driver_out: copy_port(&ports[o]),
        driver_in: copy_port(&ports[n]),
        virmidi: copy_port(&ports[v]),
    })
}

} // verus!
