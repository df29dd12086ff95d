use vstd::prelude::*;
use vstd::string::*;
use crate::controls::PAD_COUNT;
use crate::lights::Brightness;
use crate::text::{decimal, decimal_string, trim_str, trimmed};

verus! {

broadcast use vstd::string::group_string_axioms;

/// Whether `s` is blank: nothing is left once it is trimmed.
pub fn trimmed_is_empty(s: &str) -> (r: bool)
    ensures
        r == (trimmed(s@).len() == 0),
{
    trim_str(s).unicode_len() == 0
}

/// ASCII lower case of one character; other characters are kept.
pub open spec fn lower(c: char) -> char {
    if 'A' <= c <= 'Z' {
        ((c as u8) + 32) as char
    } else {
        c
    }
}

/// Whether `s` spells `word` (given in lower case) in any ASCII case.
pub open spec fn spells(s: Seq<char>, word: Seq<char>) -> bool {
    s.len() == word.len() && forall|i: int| 0 <= i < s.len() ==> lower(#[trigger] s[i]) == word[i]
}

/// The backlight level that a name gives: "dim", "normal" or "bright", in
/// any ASCII case.
pub open spec fn brightness_named(s: Seq<char>) -> Option<Brightness> {
    if spells(s, seq!['d', 'i', 'm']) {
        Some(Brightness::Dim)
    } else if spells(s, seq!['n', 'o', 'r', 'm', 'a', 'l']) {
        Some(Brightness::Normal)
    } else if spells(s, seq!['b', 'r', 'i', 'g', 'h', 't']) {
        Some(Brightness::Bright)
    } else {
        None
    }
}

fn lower_char(c: char) -> (r: char)
    ensures
        r == lower(c),
{
    if 'A' <= c && c <= 'Z' {
        ((c as u8) + 32) as char
    } else {
        c
    }
}

fn spells_word(s: &str, word: &[char]) -> (r: bool)
    ensures
        r == spells(s@, word@),
{
    let n = s.unicode_len();
    if n != word.len() {
        return false;
    }
    let mut i: usize = 0;
    while i < n
        invariant
            n == s@.len(),
            n == word@.len(),
            i <= n,
            forall|k: int| 0 <= k < i ==> lower(#[trigger] s@[k]) == word@[k],
        decreases n - i,
    {
        if lower_char(s.get_char(i)) != word[i] {
            return false;
        }
        i = i + 1;
    }
    true
}

/// The backlight level named by `name` (already trimmed), in any ASCII case.
pub fn brightness_from_name(name: &str) -> (r: Option<Brightness>)
    ensures
        r == brightness_named(name@),
{
    let dim = ['d', 'i', 'm'];
    let normal = ['n', 'o', 'r', 'm', 'a', 'l'];
    let bright = ['b', 'r', 'i', 'g', 'h', 't'];
    assert(dim@ =~= seq!['d', 'i', 'm']);
    assert(normal@ =~= seq!['n', 'o', 'r', 'm', 'a', 'l']);
    assert(bright@ =~= seq!['b', 'r', 'i', 'g', 'h', 't']);
    if spells_word(name, &dim) {
        Some(Brightness::Dim)
    } else if spells_word(name, &normal) {
        Some(Brightness::Normal)
    } else if spells_word(name, &bright) {
        Some(Brightness::Bright)
    } else {
        None
    }
}

/// Parses a backlight level: surrounding whitespace is ignored, case too.
pub fn parse_backlight_brightness(s: &str) -> (r: Result<Brightness, String>)
    ensures
        match brightness_named(trimmed(s@)) {
            Some(b) => r == Ok::<Brightness, String>(b),
            None => r is Err,
        },
{
    let t = trim_str(s);
    match brightness_from_name(t) {
        Some(b) => Ok(b),
        None => Err("invalid backlight_brightness (expected: \"dim\", \"normal\", \"bright\")".to_string()),
    }
}

/// Configuration of the driver.
pub struct Settings {
    /// MIDI note of each pad, by logical pad index.
    pub notemaps: Vec<u8>,
    pub client_name: String,
    pub port_name: String,
    pub port_name_in: String,
    /// Whether an "off" for a button LED shows the backlight level instead,
    /// so that buttons stay visible in the dark.
    pub backlight_buttons: bool,
    /// Backlight level for buttons: "dim", "normal" or "bright".
    pub backlight_brightness: String,
    /// Whether to connect the driver's ports to a virtual raw-MIDI client.
    pub autoconnect_virmidi: bool,
    /// Name of that client; empty picks the first whose name starts with
    /// "Virtual Raw MIDI".
    pub virmidi_client_name: String,
    /// Port number on that client.
    pub virmidi_port: usize,
}

/// Whether a configuration can run: sixteen notes below 128, names that are
/// not empty, and a known backlight level.
pub open spec fn settings_valid(s: Settings) -> bool {
    &&& s.notemaps@.len() == PAD_COUNT
    &&& forall|i: int| 0 <= i < s.notemaps@.len() ==> #[trigger] s.notemaps@[i] < 128
    &&& s.client_name@.len() > 0
    &&& s.port_name@.len() > 0
    &&& s.port_name_in@.len() > 0
    &&& brightness_named(trimmed(s.backlight_brightness@)) is Some
}

impl Settings {
    /// Checks the configuration before the driver starts; the error says what
    /// is wrong.
    pub fn validate(&self) -> (r: Result<(), String>)
        ensures
            r is Ok <==> settings_valid(*self),
            self.notemaps@.len() != PAD_COUNT ==> (r matches Err(e) && e@
                == "The should be 16 pads exactly (found "@ + decimal(self.notemaps@.len()) + ")"@),
            self.notemaps@.len() == PAD_COUNT && (exists|i: int|
                0 <= i < PAD_COUNT && #[trigger] self.notemaps@[i] >= 128) ==> (r matches Err(e)
                && e@ == "MIDI notes should be 0 to 127"@),
            self.notemaps@.len() == PAD_COUNT && (forall|i: int|
                0 <= i < PAD_COUNT ==> #[trigger] self.notemaps@[i] < 128) ==> {
                &&& self.client_name@.len() == 0 ==> (r matches Err(e) && e@
                    == "Client name must not be empty"@)
                &&& self.client_name@.len() > 0 && self.port_name@.len() == 0 ==> (r matches Err(e)
                    && e@ == "Port name must not be empty"@)
                &&& self.client_name@.len() > 0 && self.port_name@.len() > 0
                    && self.port_name_in@.len() == 0 ==> (r matches Err(e) && e@
                    == "Input port name must not be empty"@)
                &&& self.client_name@.len() > 0 && self.port_name@.len() > 0
                    && self.port_name_in@.len() > 0 && brightness_named(
                    trimmed(self.backlight_brightness@),
                ) is None ==> (r matches Err(e) && e@
                    == "backlight_brightness must be one of: \"dim\", \"normal\", \"bright\""@)
            },
    {
        if self.notemaps.len() != PAD_COUNT {
            let count = decimal_string(self.notemaps.len());
            let msg = "The should be 16 pads exactly (found ".to_string().concat(count.as_str()).concat(
                ")",
            );
            return Err(msg);
        }
        let mut i: usize = 0;
        while i < self.notemaps.len()
            invariant
                i <= self.notemaps@.len(),
                self.notemaps@.len() == PAD_COUNT,
                forall|k: int| 0 <= k < i ==> #[trigger] self.notemaps@[k] < 128,
            decreases self.notemaps@.len() - i,
        {
            if self.notemaps[i] >= 128 {
                return Err("MIDI notes should be 0 to 127".to_string());
            }
            i = i + 1;
        }
        if self.client_name.as_str().unicode_len() == 0 {
            return Err("Client name must not be empty".to_string());
        }
        if self.port_name.as_str().unicode_len() == 0 {
            return Err("Port name must not be empty".to_string());
        }
        if self.port_name_in.as_str().unicode_len() == 0 {
            return Err("Input port name must not be empty".to_string());
        }
        match parse_backlight_brightness(self.backlight_brightness.as_str()) {
            Ok(_) => Ok(()),
            Err(_) => Err(
                "backlight_brightness must be one of: \"dim\", \"normal\", \"bright\"".to_string(),
            ),
        }
    }

    /// The backlight level that buttons show in place of "off", if enabled.
    pub fn backlight(&self) -> (r: Option<Brightness>)
        ensures
            r == if self.backlight_buttons {
                brightness_named(trimmed(self.backlight_brightness@))
            } else {
                None
            },
    {
        if self.backlight_buttons {
            match parse_backlight_brightness(self.backlight_brightness.as_str()) {
                Ok(b) => Some(b),
                Err(_) => None,
            }
        } else {
            None
        }
    }
}

impl Default for Settings {
    /// Standard chromatic drum layout from C1, the device's port names,
    /// night mode off at level "dim", auto-connection on to the first
    /// virtual raw-MIDI client, port 0.
    fn default() -> (r: Self)
        ensures
            r.notemaps@ == seq![
                48u8, 49, 50, 51, 44, 45, 46, 47, 40, 41, 42, 43, 36, 37, 38, 39,
            ],
            !r.backlight_buttons,
            r.autoconnect_virmidi,
            r.virmidi_port == 0,
            r.virmidi_client_name@.len() == 0,
            r.backlight_brightness@ == "dim"@,
            r.client_name@ == "Maschine Mikro MK3"@,
            r.port_name@ == "Maschine Mikro MK3 MIDI Out"@,
            r.port_name_in@ == "Maschine Mikro MK3 MIDI In"@,
    {
        let notemaps = vec![48u8, 49, 50, 51, 44, 45, 46, 47, 40, 41, 42, 43, 36, 37, 38, 39];
        assert(notemaps@ =~= seq![48u8, 49, 50, 51, 44, 45, 46, 47, 40, 41, 42, 43, 36, 37, 38, 39]);
        Settings {
            notemaps,
            client_name: "Maschine Mikro MK3".to_string(),
            port_name: "Maschine Mikro MK3 MIDI Out".to_string(),
            port_name_in: "Maschine Mikro MK3 MIDI In".to_string(),
            backlight_buttons: false,
            backlight_brightness: "dim".to_string(),
            autoconnect_virmidi: true,
            virmidi_client_name: String::new(),
            virmidi_port: 0,
        }
    }
}

} // verus!
