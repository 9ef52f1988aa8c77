//! Extraction of a structural container model from a build manifest: typed
//! values for exposed network endpoints and volume mounts, the instruction
//! walk that accumulates a [`ParsedContainer`], and the entry point that runs
//! the external manifest tokenizer over raw text.

use vstd::prelude::*;

use crate::util::{
    basename_spec, dec_str, digit_char, digit_val, digit_value, find_char, get_basename,
    is_digit, is_digit_char, is_space, is_space_char, lead_spaces, lemma_find_char,
    lemma_lead_spaces, lemma_trail_spaces, lower_char, lower_seq, to_lower_char, trail_spaces,
    trim_spec,
};

verus! {

broadcast use vstd::string::group_string_axioms;

// ---------------------------------------------------------------------------
// Value types
// ---------------------------------------------------------------------------

/// Transport protocol of an exposed network endpoint.
#[derive(Debug, Clone, Copy, PartialEq, Eq, Structural)]
pub enum Protocol {
    Tcp,
    Udp,
}

impl Default for Protocol {
    /// The protocol assumed when a directive names none (or an unknown one).
    fn default() -> (r: Self)
        ensures
            r == Protocol::Tcp,
    {
        Protocol::Tcp
    }
}

impl Protocol {
    /// The token used for this protocol in rendered diagrams.
    pub open spec fn spec_text(self) -> Seq<char> {
        match self {
            Protocol::Tcp => "TCP"@,
            Protocol::Udp => "UDP"@,
        }
    }

    pub fn as_text(&self) -> (r: &'static str)
        ensures
            r@ == self.spec_text(),
    {
        match self {
            Protocol::Tcp => "TCP",
            Protocol::Udp => "UDP",
        }
    }
}

/// A network endpoint a container declares it will expose.
#[derive(Debug, Clone, Copy, PartialEq, Eq, Structural)]
pub struct ExposedPort {
    pub port_number: u16,
    pub protocol: Protocol,
}

/// A filesystem path a container declares as a mount point.
#[derive(Debug, Clone, PartialEq, Eq)]
pub struct VolumeMount {
    pub mount_point: String,
}

/// The typed value a single directive argument parses to.
#[derive(Debug, PartialEq, Eq)]
pub enum Port {
    Network(ExposedPort),
    Volume(Vec<VolumeMount>),
    Absent,
}

impl Default for Port {
    fn default() -> (r: Self)
        ensures
            r == Port::Absent,
    {
        Port::Absent
    }
}

// ---------------------------------------------------------------------------
// Exposed-endpoint parsing
// ---------------------------------------------------------------------------

/// Value of a digit string read as a decimal number.
pub open spec fn dec_val(s: Seq<char>) -> int
    decreases s.len(),
{
    if s.len() == 0 {
        0
    } else {
        dec_val(s.subrange(0, s.len() - 1)) * 10 + digit_val(s[s.len() - 1])
    }
}

pub open spec fn all_digits(s: Seq<char>) -> bool {
    forall|i: int| 0 <= i < s.len() ==> is_digit_char(#[trigger] s[i])
}

/// A non-empty digit string whose value fits a port number parses; anything
/// else does not.
pub open spec fn parse_u16_spec(s: Seq<char>) -> Option<u16> {
    if s.len() >= 1 && all_digits(s) && dec_val(s) <= 65535 {
        Some(dec_val(s) as u16)
    } else {
        None
    }
}

proof fn lemma_dec_val_nonneg(s: Seq<char>)
    requires
        all_digits(s),
    ensures
        dec_val(s) >= 0,
    decreases s.len(),
{
    if s.len() > 0 {
        let t = s.subrange(0, s.len() - 1);
        assert(all_digits(t));
        lemma_dec_val_nonneg(t);
    }
}

/// Reading further digits never decreases the value.
proof fn lemma_dec_val_prefix(s: Seq<char>, m: int)
    requires
        all_digits(s),
        0 <= m <= s.len(),
    ensures
        dec_val(s.subrange(0, m)) <= dec_val(s),
    decreases s.len() - m,
{
    if m < s.len() {
        let t = s.subrange(0, s.len() - 1);
        assert(all_digits(t));
        if m < t.len() {
            lemma_dec_val_prefix(t, m);
            assert(t.subrange(0, m) =~= s.subrange(0, m));
        } else {
            assert(t =~= s.subrange(0, m));
        }
        lemma_dec_val_nonneg(t);
        assert(dec_val(t) * 10 >= dec_val(t)) by {
            lemma_dec_val_nonneg(t);
        }
    } else {
        assert(s.subrange(0, m) =~= s);
    }
}

/// A decimal numeral reads back to the number it was rendered from.
pub proof fn lemma_dec_val_of_dec_str(m: nat)
    ensures
        dec_val(dec_str(m)) == m,
    decreases m,
{
    crate::util::lemma_dec_str_digits(m);
    if m < 10 {
        let d = dec_str(m);
        assert(d =~= seq![digit_char(m as int)]);
        assert(d.len() == 1);
        assert(d[0] == digit_char(m as int));
        assert(d.subrange(0, 0) =~= Seq::<char>::empty());
        assert(dec_val(Seq::<char>::empty()) == 0);
        assert(dec_val(d) == dec_val(d.subrange(0, 0)) * 10 + digit_val(d[0]));
        assert(digit_val(digit_char(m as int)) == m);
    } else {
        lemma_dec_val_of_dec_str(m / 10);
        let t = dec_str(m / 10);
        let d = dec_str(m);
        assert(d == t.push(digit_char((m % 10) as int)));
        assert(d.subrange(0, d.len() - 1) =~= t);
        assert(d[d.len() - 1] == digit_char((m % 10) as int));
        assert(dec_val(d) == dec_val(t) * 10 + (m % 10));
        assert((m / 10) * 10 + m % 10 == m) by {
            vstd::arithmetic::div_mod::lemma_fundamental_div_mod(m as int, 10);
        };
    }
}

/// Every valid endpoint string parses back exactly: for a positive port
/// number `n` and a protocol token that folds to `tcp` or `udp` in any
/// letter case, `<n>/<token>` yields that port with that protocol.
pub proof fn lemma_valid_endpoint_parses(n: u16, p: Seq<char>)
    requires
        n >= 1,
        lower_seq(p) == "tcp"@ || lower_seq(p) == "udp"@,
    ensures
        spec_parse_exposed_port(dec_str(n as nat) + seq!['/'] + p) == Some(
            ExposedPort {
                port_number: n,
                protocol: if lower_seq(p) == "tcp"@ {
                    Protocol::Tcp
                } else {
                    Protocol::Udp
                },
            },
        ),
{
    let d = dec_str(n as nat);
    let s = d + seq!['/'] + p;
    crate::util::lemma_dec_str_digits(n as nat);
    lemma_dec_val_of_dec_str(n as nat);
    lemma_find_char(s, '/');
    // the first separator sits right after the numeral
    assert(forall|j: int| 0 <= j < d.len() ==> s[j] == d[j]);
    assert(s[d.len() as int] == '/');
    assert(forall|j: int| 0 <= j < d.len() ==> is_digit_char(#[trigger] s[j]) && s[j] != '/');
    let k = find_char(s, '/');
    assert(k == d.len()) by {
        if k < d.len() {
            assert(s[k] == '/');
        }
        if k > d.len() {
            assert(s[d.len() as int] == '/');
        }
    }
    let left = s.subrange(0, k);
    assert(left =~= d);
    // digits are not blanks, so trimming is the identity here
    crate::util::lemma_lead_spaces(d);
    crate::util::lemma_trail_spaces(d);
    assert(lead_spaces(d) == 0) by {
        if lead_spaces(d) > 0 {
            assert(is_space_char(d[0]));
            assert(is_digit_char(d[0]));
        }
    }
    assert(trail_spaces(d) == 0) by {
        if trail_spaces(d) > 0 {
            assert(is_space_char(d[d.len() - 1]));
            assert(is_digit_char(d[d.len() - 1]));
        }
    }
    assert(trim_spec(d) =~= d);
    assert(all_digits(d));
    assert(parse_u16_spec(d) == Some(n));
    let right = s.subrange(k + 1, s.len() as int);
    assert(right =~= p);
}

/// The protocol token after the separator, matched case-insensitively, with
/// everything unrecognized falling back to the default.
pub open spec fn spec_protocol(right: Option<Seq<char>>) -> Protocol {
    match right {
        Option::Some(r) => if lower_seq(r) == "tcp"@ {
            Protocol::Tcp
        } else if lower_seq(r) == "udp"@ {
            Protocol::Udp
        } else {
            Protocol::Tcp
        },
        Option::None => Protocol::Tcp,
    }
}

/// What an `EXPOSE`-class argument parses to: the text up to the first `/` is
/// the port number (trimmed, decimal, zero or unparsable meaning "absent"),
/// the text after it the protocol token.
pub open spec fn spec_parse_exposed_port(s: Seq<char>) -> Option<ExposedPort> {
    let k = find_char(s, '/');
    let left = s.subrange(0, k);
    let right = if k < s.len() {
        Option::Some(s.subrange(k + 1, s.len() as int))
    } else {
        Option::None
    };
    let port = match parse_u16_spec(trim_spec(left)) {
        Option::Some(n) => n,
        Option::None => 0,
    };
    if port == 0 {
        Option::None
    } else {
        Option::Some(ExposedPort { port_number: port, protocol: spec_protocol(right) })
    }
}

/// Parses one exposed-endpoint declaration such as `8080/tcp`.
pub fn parse_exposed_port(input: &str) -> (p: Port)
    ensures
        spec_parse_exposed_port(input@) is None ==> p == Port::Absent,
        spec_parse_exposed_port(input@) matches Some(e) ==> p == Port::Network(e),
{
    let ghost s = input@;
    let n = input.unicode_len();

    // position of the first '/'
    let mut k: usize = 0;
    while k < n && input.get_char(k) != '/'
        invariant
            s == input@,
            n == s.len(),
            0 <= k <= n,
            forall|j: int| 0 <= j < k ==> s[j] != '/',
        decreases n - k,
    {
        k += 1;
    }
    proof {
        lemma_find_char(s, '/');
        assert(k == find_char(s, '/'));
    }
    let ghost left = s.subrange(0, k as int);

    // trim bounds of the port segment
    let mut lo: usize = 0;
    while lo < k && is_space(input.get_char(lo))
        invariant
            s == input@,
            n == s.len(),
            k <= n,
            0 <= lo <= k,
            forall|j: int| 0 <= j < lo ==> is_space_char(s[j]),
        decreases k - lo,
    {
        lo += 1;
    }
    let mut hi: usize = k;
    while hi > lo && is_space(input.get_char(hi - 1))
        invariant
            s == input@,
            n == s.len(),
            k <= n,
            0 <= lo <= hi <= k,
            forall|j: int| 0 <= j < lo ==> is_space_char(s[j]),
            lo < k ==> !is_space_char(s[lo as int]),
            forall|j: int| hi <= j < k ==> is_space_char(s[j]),
        decreases hi,
    {
        hi -= 1;
    }
    proof {
        lemma_lead_spaces(left);
        lemma_trail_spaces(left);
        if lo == hi {
            // the whole segment is whitespace
            assert(forall|j: int| 0 <= j < k ==> is_space_char(#[trigger] left[j]));
            assert(lead_spaces(left) == k);
            assert(trim_spec(left) =~= s.subrange(lo as int, hi as int));
        } else {
            assert(!is_space_char(left[lo as int]));
            assert(!is_space_char(left[hi - 1]));
            assert(lead_spaces(left) == lo);
            assert(trail_spaces(left) == k - hi);
            assert(trim_spec(left) =~= s.subrange(lo as int, hi as int));
        }
    }
    let ghost trimmed = trim_spec(left);

    // decimal value of the trimmed segment; 0 when absent or unparsable
    let mut port: u32 = 0;
    if lo < hi {
        let mut ok = true;
        let mut val: u32 = 0;
        let mut i: usize = lo;
        while i < hi && ok
            invariant
                s == input@,
                n == s.len(),
                hi <= k <= n,
                lo <= i <= hi,
                trimmed =~= s.subrange(lo as int, hi as int),
                ok ==> forall|j: int| lo <= j < i ==> is_digit_char(s[j]),
                ok ==> val == dec_val(s.subrange(lo as int, i as int)),
                ok ==> val <= 65535,
                !ok ==> parse_u16_spec(trimmed) is None,
            decreases hi - i,
        {
            let c = input.get_char(i);
            if !is_digit(c) {
                proof {
                    assert(!is_digit_char(s[i as int]));
                    assert(trimmed[i - lo] == s[i as int]);
                    assert(!is_digit_char(trimmed[i - lo]));
                    assert(!all_digits(trimmed));
                }
                ok = false;
                i += 1;
            } else {
                let d = digit_value(c);
                val = val * 10 + d;
                proof {
                    assert(s.subrange(lo as int, i + 1).subrange(0, i - lo) =~= s.subrange(
                        lo as int,
                        i as int,
                    ));
                    assert(s.subrange(lo as int, i + 1)[i - lo] == s[i as int]);
                }
                if val > 65535 {
                    proof {
                        if all_digits(trimmed) {
                            assert(s.subrange(lo as int, i + 1) =~= trimmed.subrange(
                                0,
                                i + 1 - lo,
                            ));
                            lemma_dec_val_prefix(trimmed, i + 1 - lo);
                        }
                    }
                    ok = false;
                }
                i += 1;
            }
        }
        if ok {
            proof {
                assert(s.subrange(lo as int, hi as int) =~= trimmed);
                assert(all_digits(trimmed));
                assert(val == dec_val(trimmed));
            }
            port = val;
        }
    }
    if port == 0 {
        assert(spec_parse_exposed_port(s) is None);
        return Port::Absent;
    }

    // protocol token
    let protocol = if k == n {
        Protocol::Tcp
    } else {
        let ghost right = s.subrange(k + 1, n as int);
        proof {
            reveal_strlit("tcp");
            reveal_strlit("udp");
        }
        if n - k - 1 == 3 {
            let c0 = to_lower_char(input.get_char(k + 1));
            let c1 = to_lower_char(input.get_char(k + 2));
            let c2 = to_lower_char(input.get_char(k + 3));
            proof {
                assert(lower_seq(right).len() == 3);
                assert(lower_seq(right)[0] == lower_char(s[k + 1]));
                assert(lower_seq(right)[1] == lower_char(s[k + 2]));
                assert(lower_seq(right)[2] == lower_char(s[k + 3]));
            }
            if c0 == 't' && c1 == 'c' && c2 == 'p' {
                proof {
                    assert(lower_seq(right) =~= "tcp"@);
                }
                Protocol::Tcp
            } else if c0 == 'u' && c1 == 'd' && c2 == 'p' {
                proof {
                    assert(lower_seq(right) =~= "udp"@);
                }
                Protocol::Udp
            } else {
                proof {
                    assert(lower_seq(right) != "tcp"@);
                    assert(lower_seq(right) != "udp"@);
                }
                Protocol::Tcp
            }
        } else {
            proof {
                assert(lower_seq(right).len() != 3);
                assert(lower_seq(right) != "tcp"@);
                assert(lower_seq(right) != "udp"@);
            }
            Protocol::Tcp
        }
    };

    assert(port <= 65535);
    Port::Network(ExposedPort { port_number: port as u16, protocol })
}

// ---------------------------------------------------------------------------
// Volume-mount parsing
// ---------------------------------------------------------------------------

/// The list of strings a JSON-array document decodes to, when it is a
/// well-formed array of strings; the result depends on the text alone.
pub uninterp spec fn json_string_array_of(s: Seq<char>) -> Option<Seq<Seq<char>>>;

/// Relies on serde_json::from_str::<Vec<String>>: decodes a JSON array of
/// strings, one element per array entry, failing on any other document.
#[verifier::external_body]
fn json_parse_string_array(s: &str) -> (r: Option<Vec<String>>)
    ensures
        r is Some <==> json_string_array_of(s@) is Some,
        r matches Some(v) ==> json_string_array_of(s@) == Some(v.deep_view()),
{
    serde_json::from_str::<Vec<String>>(s).ok()
}

/// The words a line splits into under shell-style whitespace splitting with
/// backslash escapes; absent when the line ends in a dangling escape. The
/// result depends on the text alone.
pub uninterp spec fn shell_words_of(s: Seq<char>) -> Option<Seq<Seq<char>>>;

/// Relies on escape_string::split: whitespace-separated words with
/// backslash escape sequences resolved, `None` on a trailing escape.
#[verifier::external_body]
fn shell_split_words(s: &str) -> (r: Option<Vec<String>>)
    ensures
        r is Some <==> shell_words_of(s@) is Some,
        r matches Some(v) ==> shell_words_of(s@) == Some(v.deep_view()),
{
    escape_string::split(s).map(|ws| ws.into_iter().map(|w| w.into_owned()).collect())
}

/// The mount points a `VOLUME`-class argument declares: dispatch on the first
/// non-blank character — `[` means a JSON array of paths, `/` a shell-word
/// list of paths, anything else (or a malformed document) means none.
pub open spec fn spec_parse_volume(s: Seq<char>) -> Option<Seq<Seq<char>>> {
    let t = trim_spec(s);
    if t.len() == 0 {
        Option::None
    } else if t[0] == '[' {
        json_string_array_of(s)
    } else if t[0] == '/' {
        shell_words_of(s)
    } else {
        Option::None
    }
}

/// The mount-point texts of a list of volume mounts, in order.
pub open spec fn mount_points(v: Seq<VolumeMount>) -> Seq<Seq<char>> {
    v.map_values(|m: VolumeMount| m.mount_point@)
}

/// Wraps each path of a parsed list as a [`VolumeMount`].
fn mounts_of_paths(paths: Vec<String>) -> (r: Vec<VolumeMount>)
    ensures
        mount_points(r@) == paths.deep_view(),
{
    let n = paths.len();
    let mut r: Vec<VolumeMount> = Vec::new();
    let mut paths = paths;
    let mut i: usize = 0;
    let ghost orig = paths.deep_view();
    while i < n
        invariant
            n == paths@.len(),
            orig == paths.deep_view(),
            0 <= i <= n,
            r@.len() == i,
            forall|j: int| 0 <= j < i ==> #[trigger] r@[j].mount_point@ == orig[j],
        decreases n - i,
    {
        let p = paths[i].clone();
        assert(p@ == orig[i as int]);
        r.push(VolumeMount { mount_point: p });
        i += 1;
    }
    assert(mount_points(r@) =~= orig);
    r
}

/// Parses a JSON-array volume declaration.
pub fn parse_json_volume(json_str: &str) -> (p: Port)
    ensures
        json_string_array_of(json_str@) is None ==> p == Port::Absent,
        json_string_array_of(json_str@) matches Some(paths) ==> (p matches Port::Volume(v)
            && mount_points(v@) == paths),
{
    match json_parse_string_array(json_str) {
        Some(paths) => {
            let v = mounts_of_paths(paths);
            Port::Volume(v)
        },
        None => Port::Absent,
    }
}

/// Parses a shell-word volume declaration.
pub fn parse_string_volume(input_str: &str) -> (p: Port)
    ensures
        shell_words_of(input_str@) is None ==> p == Port::Absent,
        shell_words_of(input_str@) matches Some(paths) ==> (p matches Port::Volume(v)
            && mount_points(v@) == paths),
{
    match shell_split_words(input_str) {
        Some(paths) => {
            let v = mounts_of_paths(paths);
            Port::Volume(v)
        },
        None => Port::Absent,
    }
}

/// Parses one volume declaration in either accepted syntax.
pub fn parse_volume(input: &str) -> (p: Port)
    ensures
        spec_parse_volume(input@) is None ==> p == Port::Absent,
        spec_parse_volume(input@) matches Some(paths) ==> (p matches Port::Volume(v)
            && mount_points(v@) == paths),
{
    let ghost s = input@;
    let n = input.unicode_len();
    // first non-blank character, if any
    let mut lo: usize = 0;
    while lo < n && is_space(input.get_char(lo))
        invariant
            s == input@,
            n == s.len(),
            0 <= lo <= n,
            forall|j: int| 0 <= j < lo ==> is_space_char(s[j]),
        decreases n - lo,
    {
        lo += 1;
    }
    proof {
        lemma_lead_spaces(s);
        lemma_trail_spaces(s);
        assert(lo == lead_spaces(s));
        if lo < n {
            assert(trail_spaces(s) <= n - lo - 1) by {
                if trail_spaces(s) > n - lo - 1 {
                    assert(is_space_char(s[lo as int]));
                }
            }
            assert(trim_spec(s).len() > 0);
            assert(trim_spec(s)[0] == s[lo as int]);
        } else {
            assert(trim_spec(s) =~= Seq::<char>::empty()) by {
                if lead_spaces(s) + trail_spaces(s) <= s.len() {
                    assert(trim_spec(s).len() == trail_spaces(s) == 0 || trim_spec(s).len() == 0);
                }
            }
        }
    }
    if lo >= n {
        return Port::Absent;
    }
    let c = input.get_char(lo);
    if c == '[' {
        parse_json_volume(input)
    } else if c == '/' {
        parse_string_volume(input)
    } else {
        Port::Absent
    }
}

/// Interprets one directive by its instruction name: the `EXPOSE` and
/// `VOLUME` classes contribute typed values, everything else contributes
/// nothing.
pub fn parse_misc_instruction(name: &str, args: &str) -> (p: Port)
    ensures
        name@ == "EXPOSE"@ ==> {
            match spec_parse_exposed_port(args@) {
                Option::Some(e) => p == Port::Network(e),
                Option::None => p == Port::Absent,
            }
        },
        name@ == "VOLUME"@ ==> {
            match spec_parse_volume(args@) {
                Option::Some(paths) => p matches Port::Volume(v) && mount_points(v@) == paths,
                Option::None => p == Port::Absent,
            }
        },
        name@ != "EXPOSE"@ && name@ != "VOLUME"@ ==> p == Port::Absent,
{
    proof {
        reveal_strlit("EXPOSE");
        reveal_strlit("VOLUME");
        assert("EXPOSE"@[0] == 'E' && "VOLUME"@[0] == 'V');
        assert("EXPOSE"@ != "VOLUME"@);
    }
    if crate::util::str_eq(name, "EXPOSE") {
        parse_exposed_port(args)
    } else if crate::util::str_eq(name, "VOLUME") {
        parse_volume(args)
    } else {
        Port::Absent
    }
}

// ---------------------------------------------------------------------------
// Instruction model
// ---------------------------------------------------------------------------

/// What the model builder reads from one manifest instruction.
#[derive(Debug, Clone, PartialEq, Eq)]
pub enum InstructionKind {
    /// A base-image declaration, with its optional stage alias.
    FromImage { image: String, alias: Option<String> },
    /// A label declaration; one instruction may set several pairs.
    LabelSet { pairs: Vec<(String, String)> },
    /// A directive the tokenizer does not model further, such as `EXPOSE`.
    Misc { name: String, args: String },
    /// Any other instruction; it contributes only to the trace.
    Other,
}

/// One manifest instruction: its raw source text and its interpreted kind.
#[derive(Debug, Clone, PartialEq, Eq)]
pub struct ParsedInstruction {
    pub raw: String,
    pub kind: InstructionKind,
}

/// Index of the first base-image declaration, or the length when none exists.
/// A build stage begins at a base-image declaration, so everything before the
/// first one belongs to no stage and is ignored by the walk.
pub open spec fn first_from(s: Seq<ParsedInstruction>) -> int
    decreases s.len(),
{
    if s.len() == 0 {
        0
    } else if s[0].kind matches InstructionKind::FromImage { .. } {
        0
    } else {
        1 + first_from(s.subrange(1, s.len() as int))
    }
}

pub proof fn lemma_first_from(s: Seq<ParsedInstruction>)
    ensures
        0 <= first_from(s) <= s.len(),
        forall|j: int|
            0 <= j < first_from(s) ==> !(#[trigger] s[j].kind matches InstructionKind::FromImage {
                ..
            }),
        first_from(s) < s.len() ==> s[first_from(s)].kind matches InstructionKind::FromImage {
            ..
        },
    decreases s.len(),
{
    if s.len() > 0 && !(s[0].kind matches InstructionKind::FromImage { .. }) {
        let t = s.subrange(1, s.len() as int);
        lemma_first_from(t);
        assert forall|j: int|
            0 <= j < first_from(s) implies !(#[trigger] s[j].kind
            matches InstructionKind::FromImage { .. }) by {
            if j > 0 {
                assert(!(t[j - 1].kind matches InstructionKind::FromImage { .. }));
            }
        }
    }
}

// ---------------------------------------------------------------------------
// The label mapping: ordered entries, unique keys, last write wins
// ---------------------------------------------------------------------------

/// The textual view of stored label entries.
pub open spec fn labels_view(s: Seq<(String, String)>) -> Seq<(Seq<char>, Seq<char>)> {
    s.map_values(|p: (String, String)| (p.0@, p.1@))
}

/// Index of the first entry with key `k`, or the length when none exists.
pub open spec fn find_key(s: Seq<(Seq<char>, Seq<char>)>, k: Seq<char>) -> int
    decreases s.len(),
{
    if s.len() == 0 {
        0
    } else if s[0].0 == k {
        0
    } else {
        1 + find_key(s.subrange(1, s.len() as int), k)
    }
}

pub proof fn lemma_find_key(s: Seq<(Seq<char>, Seq<char>)>, k: Seq<char>)
    ensures
        0 <= find_key(s, k) <= s.len(),
        forall|j: int| 0 <= j < find_key(s, k) ==> (#[trigger] s[j]).0 != k,
        find_key(s, k) < s.len() ==> s[find_key(s, k)].0 == k,
    decreases s.len(),
{
    if s.len() > 0 && s[0].0 != k {
        let t = s.subrange(1, s.len() as int);
        lemma_find_key(t, k);
        assert forall|j: int| 0 <= j < find_key(s, k) implies (#[trigger] s[j]).0 != k by {
            if j > 0 {
                assert(t[j - 1].0 != k);
            }
        }
    }
}

/// Inserting a pair overwrites the value of an existing entry with that key
/// in place, or appends a fresh entry: later writes win, first-occurrence
/// order is kept.
pub open spec fn upsert(
    s: Seq<(Seq<char>, Seq<char>)>,
    k: Seq<char>,
    v: Seq<char>,
) -> Seq<(Seq<char>, Seq<char>)> {
    let i = find_key(s, k);
    if i < s.len() {
        s.update(i, (k, v))
    } else {
        s.push((k, v))
    }
}

/// All pairs of one label declaration inserted in order.
pub open spec fn upsert_all(
    s: Seq<(Seq<char>, Seq<char>)>,
    pairs: Seq<(String, String)>,
) -> Seq<(Seq<char>, Seq<char>)>
    decreases pairs.len(),
{
    if pairs.len() == 0 {
        s
    } else {
        upsert(upsert_all(s, pairs.drop_last()), pairs.last().0@, pairs.last().1@)
    }
}

/// The value stored under key `k`, if any.
pub open spec fn spec_lookup(s: Seq<(Seq<char>, Seq<char>)>, k: Seq<char>) -> Option<Seq<char>> {
    let i = find_key(s, k);
    if i < s.len() {
        Option::Some(s[i].1)
    } else {
        Option::None
    }
}

/// No two stored label entries share a key.
pub open spec fn keys_unique(s: Seq<(Seq<char>, Seq<char>)>) -> bool {
    forall|i: int, j: int| 0 <= i < j < s.len() ==> (#[trigger] s[i]).0 != (#[trigger] s[j]).0
}

proof fn lemma_upsert_unique(s: Seq<(Seq<char>, Seq<char>)>, k: Seq<char>, v: Seq<char>)
    requires
        keys_unique(s),
    ensures
        keys_unique(upsert(s, k, v)),
{
    lemma_find_key(s, k);
}

proof fn lemma_upsert_all_unique(s: Seq<(Seq<char>, Seq<char>)>, pairs: Seq<(String, String)>)
    requires
        keys_unique(s),
    ensures
        keys_unique(upsert_all(s, pairs)),
    decreases pairs.len(),
{
    if pairs.len() > 0 {
        lemma_upsert_all_unique(s, pairs.drop_last());
        lemma_upsert_unique(upsert_all(s, pairs.drop_last()), pairs.last().0@, pairs.last().1@);
    }
}

/// The label mapping of a walked manifest never holds two entries with the
/// same key: duplicate writes overwrite in place.
pub proof fn lemma_labels_of_unique(w: Seq<ParsedInstruction>)
    ensures
        keys_unique(labels_of(w)),
    decreases w.len(),
{
    if w.len() > 0 {
        lemma_labels_of_unique(w.drop_last());
        match w.last().kind {
            InstructionKind::LabelSet { pairs } => {
                lemma_upsert_all_unique(labels_of(w.drop_last()), pairs@);
            },
            _ => (),
        }
    }
}

/// Inserts one label pair with last-write-wins semantics.
fn upsert_label(labels: &mut Vec<(String, String)>, k: &String, v: &String)
    ensures
        labels_view(final(labels)@) == upsert(labels_view(old(labels)@), k@, v@),
{
    let ghost lv = labels_view(labels@);
    proof {
        lemma_find_key(lv, k@);
    }
    let n = labels.len();
    let mut i: usize = 0;
    while i < n
        invariant
            labels@ == old(labels)@,
            lv == labels_view(labels@),
            n == labels@.len(),
            0 <= i <= n,
            forall|j: int| 0 <= j < i ==> (#[trigger] lv[j]).0 != k@,
        decreases n - i,
    {
        if crate::util::str_eq(labels[i].0.as_str(), k.as_str()) {
            proof {
                lemma_find_key(lv, k@);
                assert(lv[i as int].0 == k@);
                assert(find_key(lv, k@) == i);
            }
            labels.remove(i);
            labels.insert(i, (k.clone(), v.clone()));
            assert(labels_view(labels@) =~= upsert(lv, k@, v@));
            return ;
        }
        i += 1;
    }
    proof {
        lemma_find_key(lv, k@);
        assert(find_key(lv, k@) == n);
    }
    labels.push((k.clone(), v.clone()));
    assert(labels_view(labels@) =~= upsert(lv, k@, v@));
}

// ---------------------------------------------------------------------------
// The container model and the instruction walk
// ---------------------------------------------------------------------------

/// The structural model extracted from one build manifest.
#[derive(Debug, Clone, PartialEq, Eq)]
pub struct ParsedContainer {
    /// Identity: the last stage's alias, or the source file's base name.
    pub name: String,
    /// The last base-image reference declared.
    pub base_image: String,
    /// Label pairs, unique keys, last write wins.
    pub labels: Vec<(String, String)>,
    /// Exposed endpoints in declaration order.
    pub exposed_ports: Vec<ExposedPort>,
    /// Mount declarations in declaration order.
    pub volumes: Vec<VolumeMount>,
    /// The raw source text of every instruction walked, in order.
    pub containerfile: Vec<String>,
}

impl ParsedContainer {
    /// Looks a label up by key.
    pub fn get_label(&self, key: &str) -> (r: Option<&String>)
        ensures
            match r {
                Option::Some(v) => spec_lookup(labels_view(self.labels@), key@)
                    == Option::Some(v@),
                Option::None => spec_lookup(labels_view(self.labels@), key@) is None,
            },
    {
        let ghost lv = labels_view(self.labels@);
        let n = self.labels.len();
        let mut i: usize = 0;
        while i < n
            invariant
                lv == labels_view(self.labels@),
                n == self.labels@.len(),
                0 <= i <= n,
                forall|j: int| 0 <= j < i ==> (#[trigger] lv[j]).0 != key@,
            decreases n - i,
        {
            if crate::util::str_eq(self.labels[i].0.as_str(), key) {
                proof {
                    lemma_find_key(lv, key@);
                    assert(lv[i as int].0 == key@);
                    assert(find_key(lv, key@) == i);
                }
                return Some(&self.labels[i].1);
            }
            i += 1;
        }
        proof {
            lemma_find_key(lv, key@);
        }
        None
    }
}

/// The raw text of every walked instruction, in order.
pub open spec fn trace_of(w: Seq<ParsedInstruction>) -> Seq<Seq<char>> {
    w.map_values(|p: ParsedInstruction| p.raw@)
}

/// The image text of the last base-image declaration, or empty.
pub open spec fn base_of(w: Seq<ParsedInstruction>) -> Seq<char>
    decreases w.len(),
{
    if w.len() == 0 {
        Seq::empty()
    } else {
        match w.last().kind {
            InstructionKind::FromImage { image, alias } => image@,
            _ => base_of(w.drop_last()),
        }
    }
}

/// The lower-cased alias of the last base-image declaration (the last
/// stage's name), or empty when that stage is unnamed.
pub open spec fn name_of(w: Seq<ParsedInstruction>) -> Seq<char>
    decreases w.len(),
{
    if w.len() == 0 {
        Seq::empty()
    } else {
        match w.last().kind {
            InstructionKind::FromImage { image, alias } => match alias {
                Option::Some(a) => lower_seq(a@),
                Option::None => Seq::empty(),
            },
            _ => name_of(w.drop_last()),
        }
    }
}

/// All label pairs folded in order.
pub open spec fn labels_of(w: Seq<ParsedInstruction>) -> Seq<(Seq<char>, Seq<char>)>
    decreases w.len(),
{
    if w.len() == 0 {
        Seq::empty()
    } else {
        match w.last().kind {
            InstructionKind::LabelSet { pairs } => upsert_all(labels_of(w.drop_last()), pairs@),
            _ => labels_of(w.drop_last()),
        }
    }
}

/// Every successfully parsed `EXPOSE` endpoint, in order.
pub open spec fn ports_of(w: Seq<ParsedInstruction>) -> Seq<ExposedPort>
    decreases w.len(),
{
    if w.len() == 0 {
        Seq::empty()
    } else {
        ports_of(w.drop_last()) + match w.last().kind {
            InstructionKind::Misc { name, args } => if name@ == "EXPOSE"@ {
                match spec_parse_exposed_port(args@) {
                    Option::Some(e) => seq![e],
                    Option::None => Seq::empty(),
                }
            } else {
                Seq::empty()
            },
            _ => Seq::empty(),
        }
    }
}

/// Every successfully parsed `VOLUME` mount point, in order.
pub open spec fn vols_of(w: Seq<ParsedInstruction>) -> Seq<Seq<char>>
    decreases w.len(),
{
    if w.len() == 0 {
        Seq::empty()
    } else {
        vols_of(w.drop_last()) + match w.last().kind {
            InstructionKind::Misc { name, args } => if name@ == "VOLUME"@ {
                match spec_parse_volume(args@) {
                    Option::Some(paths) => paths,
                    Option::None => Seq::empty(),
                }
            } else {
                Seq::empty()
            },
            _ => Seq::empty(),
        }
    }
}

/// Walks the instructions of a manifest, in source order, and accumulates
/// the container model. Instructions before the first base-image declaration
/// belong to no build stage and contribute nothing.
pub fn extract_dockerblock(instructions: &Vec<ParsedInstruction>) -> (c: ParsedContainer)
    ensures
        ({
            let w = instructions@.subrange(
                first_from(instructions@),
                instructions@.len() as int,
            );
            &&& c.containerfile.deep_view() == trace_of(w)
            &&& c.base_image@ == base_of(w)
            &&& c.name@ == name_of(w)
            &&& labels_view(c.labels@) == labels_of(w)
            &&& keys_unique(labels_view(c.labels@))
            &&& c.exposed_ports@ == ports_of(w)
            &&& mount_points(c.volumes@) == vols_of(w)
        }),
{
    let ghost s = instructions@;
    let ghost ff = first_from(s);
    proof {
        lemma_first_from(s);
        lemma_labels_of_unique(s.subrange(ff, s.len() as int));
    }
    let n = instructions.len();
    let mut cname = String::new();
    let mut base = String::new();
    let mut labels: Vec<(String, String)> = Vec::new();
    let mut ports: Vec<ExposedPort> = Vec::new();
    let mut vols: Vec<VolumeMount> = Vec::new();
    let mut trace: Vec<String> = Vec::new();
    let mut started = false;
    let mut i: usize = 0;
    while i < n
        invariant
            s == instructions@,
            n == s.len(),
            0 <= i <= n,
            ff == first_from(s),
            0 <= ff <= n,
            forall|j: int|
                0 <= j < ff ==> !(#[trigger] s[j].kind matches InstructionKind::FromImage { .. }),
            ff < n ==> s[ff].kind matches InstructionKind::FromImage { .. },
            started == (ff < i),
            !started ==> i <= ff,
            ({
                let w = if started {
                    s.subrange(ff, i as int)
                } else {
                    Seq::<ParsedInstruction>::empty()
                };
                &&& trace.deep_view() == trace_of(w)
                &&& base@ == base_of(w)
                &&& cname@ == name_of(w)
                &&& labels_view(labels@) == labels_of(w)
                &&& ports@ == ports_of(w)
                &&& mount_points(vols@) == vols_of(w)
            }),
        decreases n - i,
    {
        let ghost w = if started {
            s.subrange(ff, i as int)
        } else {
            Seq::<ParsedInstruction>::empty()
        };
        let inst = &instructions[i];
        let is_from = match &inst.kind {
            InstructionKind::FromImage { .. } => true,
            _ => false,
        };
        if !started && !is_from {
            // before the first stage: skipped entirely
            proof {
                assert(i < ff);
            }
            i += 1;
            continue ;
        }
        proof {
            if !started {
                assert(ff <= i);
                assert(i == ff);
                assert(w =~= s.subrange(ff, i as int));
            }
            assert(s.subrange(ff, i + 1).drop_last() =~= s.subrange(ff, i as int));
            assert(s.subrange(ff, i + 1).last() == s[i as int]);
        }
        started = true;
        let ghost tdv0 = trace.deep_view();
        trace.push(inst.raw.clone());
        match &inst.kind {
            InstructionKind::FromImage { image, alias } => {
                base = image.clone();
                cname = match alias {
                    Some(a) => crate::util::to_lower_str(a.as_str()),
                    None => String::new(),
                };
            },
            InstructionKind::LabelSet { pairs } => {
                let ghost l0 = labels_view(labels@);
                let ghost ps = pairs@;
                let m = pairs.len();
                let mut j: usize = 0;
                while j < m
                    invariant
                        ps == pairs@,
                        m == ps.len(),
                        0 <= j <= m,
                        labels_view(labels@) == upsert_all(l0, ps.subrange(0, j as int)),
                    decreases m - j,
                {
                    proof {
                        assert(ps.subrange(0, j + 1).drop_last() =~= ps.subrange(0, j as int));
                        assert(ps.subrange(0, j + 1).last() == ps[j as int]);
                    }
                    upsert_label(&mut labels, &pairs[j].0, &pairs[j].1);
                    j += 1;
                }
                proof {
                    assert(ps.subrange(0, m as int) =~= ps);
                }
            },
            InstructionKind::Misc { name, args } => {
                match parse_misc_instruction(name.as_str(), args.as_str()) {
                    Port::Network(e) => {
                        ports.push(e);
                    },
                    Port::Volume(mut v) => {
                        let ghost mv = mount_points(v@);
                        let ghost v0 = mount_points(vols@);
                        vols.append(&mut v);
                        assert(mount_points(vols@) =~= v0 + mv);
                    },
                    Port::Absent => {},
                }
            },
            InstructionKind::Other => {},
        }
        proof {
            let w1 = s.subrange(ff, i + 1);
            assert(trace.deep_view() =~= tdv0.push(s[i as int].raw@));
            assert(trace_of(w1) =~= trace_of(w).push(s[i as int].raw@));
            assert(trace.deep_view() =~= trace_of(w1));
            assert(ports@ =~= ports_of(w1));
            assert(mount_points(vols@) =~= vols_of(w1));
        }
        i += 1;
    }
    proof {
        if !started {
            assert(ff == n);
            assert(s.subrange(ff, n as int) =~= Seq::<ParsedInstruction>::empty());
        }
        assert(s.subrange(ff, i as int) =~= s.subrange(ff, n as int));
    }
    ParsedContainer {
        name: cname,
        base_image: base,
        labels,
        exposed_ports: ports,
        volumes: vols,
        containerfile: trace,
    }
}

// ---------------------------------------------------------------------------
// The external manifest tokenizer
// ---------------------------------------------------------------------------

#[verifier::external_type_specification]
#[verifier::external_body]
pub struct ExDockerfile(dockerfile_parser::Dockerfile);

/// The instruction models of a manifest text, when the tokenizer accepts it;
/// the result depends on the text alone.
pub uninterp spec fn manifest_model_of(s: Seq<char>) -> Option<Seq<ParsedInstruction>>;

/// What a tokenized manifest holds: one instruction model per instruction,
/// in source order.
pub uninterp spec fn manifest_instructions(d: dockerfile_parser::Dockerfile) -> Seq<
    ParsedInstruction,
>;

/// Relies on dockerfile_parser::Dockerfile::parse: tokenizes manifest text
/// into instruction nodes, deterministically in the text; a syntactically
/// ill-formed manifest is rejected.
#[verifier::external_body]
fn parse_manifest_text(content: &str) -> (r: Result<dockerfile_parser::Dockerfile, String>)
    ensures
        r is Ok <==> manifest_model_of(content@) is Some,
        r matches Ok(d) ==> manifest_instructions(d) == manifest_model_of(content@).unwrap(),
{
    match dockerfile_parser::Dockerfile::parse(content) {
        Ok(d) => Ok(d),
        Err(e) => Err(format!("{}", e)),
    }
}

/// Relies on the `instructions` list of dockerfile_parser::Dockerfile: its
/// length is the number of parsed instructions.
#[verifier::external_body]
fn manifest_instruction_count(d: &dockerfile_parser::Dockerfile) -> (n: usize)
    ensures
        n == manifest_instructions(*d).len(),
{
    d.instructions.len()
}

/// Relies on dockerfile_parser::Span and the raw `content` of the parsed
/// manifest: the source text of the instruction at position `i`.
#[verifier::external_body]
fn manifest_instruction_raw(d: &dockerfile_parser::Dockerfile, i: usize) -> (r: String)
    requires
        i < manifest_instructions(*d).len(),
    ensures
        r == manifest_instructions(*d)[i as int].raw,
{
    let sp = d.instructions[i].span();
    d.content.get(sp.start..sp.end).unwrap_or("").to_string()
}

/// Relies on dockerfile_parser::Instruction: the variant of the instruction
/// at position `i`, with its fields carried over as plain text (a `FROM`
/// keeps its image and optional alias, a `LABEL` its key/value pairs, an
/// unmodeled directive its name and argument text).
#[verifier::external_body]
fn manifest_instruction_kind(d: &dockerfile_parser::Dockerfile, i: usize) -> (r: InstructionKind)
    requires
        i < manifest_instructions(*d).len(),
    ensures
        r == manifest_instructions(*d)[i as int].kind,
{
    match &d.instructions[i] {
        dockerfile_parser::Instruction::From(f) => InstructionKind::FromImage {
            image: f.image.to_string(),
            alias: f.alias.as_ref().map(|a| a.to_string()),
        },
        dockerfile_parser::Instruction::Label(l) => InstructionKind::LabelSet {
            pairs: l.labels.iter().map(|p| (p.name.to_string(), p.value.to_string())).collect(),
        },
        dockerfile_parser::Instruction::Misc(m) => InstructionKind::Misc {
            name: m.instruction.to_string(),
            args: m.arguments.to_string(),
        },
        _ => InstructionKind::Other,
    }
}

/// Tokenizes manifest text and extracts its container model. `path` is the
/// source's name; its base name becomes the model's identity when the last
/// build stage is unnamed.
pub fn parse_dockerfile_content(content: &str, path: &str) -> (r: Result<ParsedContainer, String>)
    ensures
        r is Ok <==> manifest_model_of(content@) is Some,
        r matches Ok(c) ==> ({
            let insts = manifest_model_of(content@).unwrap();
            let w = insts.subrange(first_from(insts), insts.len() as int);
            &&& c.containerfile.deep_view() == trace_of(w)
            &&& c.base_image@ == base_of(w)
            &&& c.name@ == (if name_of(w).len() > 0 {
                name_of(w)
            } else {
                basename_spec(path@)
            })
            &&& labels_view(c.labels@) == labels_of(w)
            &&& c.exposed_ports@ == ports_of(w)
            &&& mount_points(c.volumes@) == vols_of(w)
        }),
{
    let d = match parse_manifest_text(content) {
        Ok(d) => d,
        Err(e) => {
            return Err(e);
        },
    };
    let n = manifest_instruction_count(&d);
    let mut insts: Vec<ParsedInstruction> = Vec::new();
    let mut i: usize = 0;
    while i < n
        invariant
            n == manifest_instructions(d).len(),
            0 <= i <= n,
            insts@ =~= manifest_instructions(d).subrange(0, i as int),
        decreases n - i,
    {
        let raw = manifest_instruction_raw(&d, i);
        let kind = manifest_instruction_kind(&d, i);
        let p = ParsedInstruction { raw, kind };
        assert(p == manifest_instructions(d)[i as int]);
        insts.push(p);
        assert(insts@ =~= manifest_instructions(d).subrange(0, i + 1));
        i += 1;
    }
    assert(insts@ =~= manifest_instructions(d));
    let mut block = extract_dockerblock(&insts);
    if block.name.as_str().is_empty() {
        block.name = get_basename(path);
    }
    Ok(block)
}

} // verus!
