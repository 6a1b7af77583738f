//! Wi-Fi credentials and what the network page shows.

use crate::text;
use vstd::prelude::*;

verus! {

/// What the network page shows.
#[derive(Debug, Clone)]
pub struct NetworkSnapshot {
    /// Own address.
    pub ip: String,
    /// Address of the gateway.
    pub gateway: String,
    /// Own name.
    pub hostname: String,
    /// Name of the network.
    pub ssid: String,
}

/// A setting without the white space around it, if anything is left.
pub open spec fn setting_text(value: Option<&str>) -> Option<Seq<char>> {
    match value {
        Some(v) => if text::trimmed(v@).len() > 0 {
            Some(text::trimmed(v@))
        } else {
            None
        },
        None => None,
    }
}

/// Read a setting: cut off the white space around it, and take an empty one for none.
pub fn read_setting(value: Option<&str>) -> (r: Option<String>)
    ensures
        r is Some <==> setting_text(value) is Some,
        r matches Some(v) ==> setting_text(value) == Some(v@),
{
    match value {
        None => None,
        Some(v) => {
            let chars = text::chars_of(v);
            let t = text::trim(chars.as_slice());
            if t.len() > 0 {
                Some(text::string_of(t))
            } else {
                None
            }
        },
    }
}

/// Get the name of the network to show; `n/a` if none is set.
pub fn compile_time_ssid(ssid: Option<&str>) -> (r: String)
    ensures
        r@ == match setting_text(ssid) {
            Some(v) => v,
            None => "n/a"@,
        },
{
    match read_setting(ssid) {
        Some(v) => v,
        None => "n/a".to_owned(),
    }
}

/// An address as four numbers with points between them, the lowest byte first.
pub open spec fn address_text(addr_le: u32) -> Seq<char> {
    text::dec(addr_le as int % 256) + "."@ + text::dec(addr_le as int / 0x100 % 256) + "."@
        + text::dec(addr_le as int / 0x1_0000 % 256) + "."@ + text::dec(
        addr_le as int / 0x100_0000,
    )
}

/// Write an address that is stored with its lowest byte first.
pub fn write_address(addr_le: u32) -> (r: String)
    ensures
        r@ == address_text(addr_le),
{
    let mut out = String::new();
    text::push_dec(&mut out, (addr_le % 256) as u128);
    assert(out@ == text::dec(addr_le as int % 256));
    out.append(".");
    text::push_dec(&mut out, (addr_le / 0x100 % 256) as u128);
    out.append(".");
    text::push_dec(&mut out, (addr_le / 0x1_0000 % 256) as u128);
    out.append(".");
    text::push_dec(&mut out, (addr_le / 0x100_0000) as u128);
    out
}

impl NetworkSnapshot {
    /// What the network page shows: own address and gateway as the interface reports
    /// them, `n/a` for both if it reports none.
    pub fn read(hostname: &str, ssid: Option<&str>, addresses: Option<(u32, u32)>) -> (r: Self)
        ensures
            r.hostname@ == hostname@,
            r.ssid@ == match setting_text(ssid) {
                Some(v) => v,
                None => "n/a"@,
            },
            r.ip@ == match addresses {
                Some((ip, _)) => address_text(ip),
                None => "n/a"@,
            },
            r.gateway@ == match addresses {
                Some((_, gateway)) => address_text(gateway),
                None => "n/a"@,
            },
    {
        let (ip, gateway) = match addresses {
            Some((ip, gateway)) => (write_address(ip), write_address(gateway)),
            None => ("n/a".to_owned(), "n/a".to_owned()),
        };
        NetworkSnapshot {
            ip,
            gateway,
            hostname: hostname.to_owned(),
            ssid: compile_time_ssid(ssid),
        }
    }
}

/// What it takes to join a network.
#[derive(Debug, Clone)]
pub struct WifiCredentials {
    /// Name of the network.
    pub ssid: String,
    /// Its password.
    pub pass: String,
}

/// The settings name no network, or no password for it.
#[derive(Debug, Clone, Copy, PartialEq, Eq, Structural)]
pub struct MissingCredentials;

/// Get the credentials from the settings. Both are needed.
pub fn load_wifi_credentials_from_env(ssid: Option<&str>, pass: Option<&str>) -> (r: Result<
    WifiCredentials,
    MissingCredentials,
>)
    ensures
        r is Ok <==> setting_text(ssid) is Some && setting_text(pass) is Some,
        r matches Ok(c) ==> setting_text(ssid) == Some(c.ssid@) && setting_text(pass) == Some(
            c.pass@,
        ),
{
    match (read_setting(ssid), read_setting(pass)) {
        (Some(ssid), Some(pass)) => Ok(WifiCredentials { ssid, pass }),
        _ => Err(MissingCredentials),
    }
}

/// How to join a network.
#[derive(Debug, Clone, Copy, PartialEq, Eq, Structural)]
pub enum AuthChoice {
    /// Without a password.
    Open,
    /// With a password, by WPA2.
    Wpa2Personal,
}

/// Decide how to join a network: by WPA2 if there is a password.
pub fn auth_choice(creds: &WifiCredentials) -> (r: AuthChoice)
    ensures
        r == if creds.pass@.len() == 0 {
            AuthChoice::Open
        } else {
            AuthChoice::Wpa2Personal
        },
{
    if creds.pass.as_str().is_empty() {
        AuthChoice::Open
    } else {
        AuthChoice::Wpa2Personal
    }
}

/// Credentials that are taken from the settings always have a password, so such a
/// network is joined by WPA2.
pub proof fn law_loaded_credentials_use_wpa2(ssid: Option<&str>, pass: Option<&str>, c: WifiCredentials)
    requires
        setting_text(ssid) == Some(c.ssid@),
        setting_text(pass) == Some(c.pass@),
    ensures
        c.ssid@.len() > 0,
        c.pass@.len() > 0,
{
}

/// The bytes of an address, the lowest first, in the text that shows it.
proof fn lemma_bytes_of_an_address(a: u8, b: u8, c: u8, d: u8)
    ensures
        address_text((a + 0x100 * b + 0x1_0000 * c + 0x100_0000 * d) as u32)
            == crate::ntp::protection::dotted(a as int, b as int, c as int, d as int),
{
    let addr = (a + 0x100 * b + 0x1_0000 * c + 0x100_0000 * d) as u32;
    assert("."@ == seq!['.']) by {
        reveal_strlit(".");
    }
    assert(addr as int / 0x100 == b + 0x100 * c + 0x1_0000 * d);
    assert(addr as int / 0x1_0000 == c + 0x100 * d);
    assert(addr as int / 0x100_0000 == d);
    assert(addr as int % 256 == a);
    assert(addr as int / 0x100 % 256 == b);
    assert(addr as int / 0x1_0000 % 256 == c);
}

/// An address is written as its four bytes in decimal, the lowest first, with points
/// between them: splitting it at the points and reading the numbers gives the bytes.
pub proof fn law_address_is_read_back(a: u8, b: u8, c: u8, d: u8)
    ensures
        ({
            let addr = (a + 0x100 * b + 0x1_0000 * c + 0x100_0000 * d) as u32;
            let parts = text::fields(address_text(addr), '.');
            &&& parts.len() == 4
            &&& text::unsigned_number(parts[0], 255) == Some(a as int)
            &&& text::unsigned_number(parts[1], 255) == Some(b as int)
            &&& text::unsigned_number(parts[2], 255) == Some(c as int)
            &&& text::unsigned_number(parts[3], 255) == Some(d as int)
        }),
{
    let addr = (a + 0x100 * b + 0x1_0000 * c + 0x100_0000 * d) as u32;
    lemma_bytes_of_an_address(a, b, c, d);
    crate::ntp::protection::lemma_dotted(a as int, b as int, c as int, d as int);
    text::law_number_is_read_back(a as int, 255);
    text::law_number_is_read_back(b as int, 255);
    text::law_number_is_read_back(c as int, 255);
    text::law_number_is_read_back(d as int, 255);
}

/// A setting is taken without the white space around it, and one of white space alone
/// counts as none.
pub proof fn law_settings_are_trimmed(value: &str, front: Seq<char>, s: Seq<char>, back: Seq<char>)
    requires
        forall|i: int| 0 <= i < front.len() ==> text::is_white_space(#[trigger] front[i]),
        forall|i: int| 0 <= i < back.len() ==> text::is_white_space(#[trigger] back[i]),
    ensures
        s.len() > 0 && !text::is_white_space(s[0]) && !text::is_white_space(s.last()) && value@
            == front + s + back ==> setting_text(Some(value)) == Some(s),
        value@ == front ==> setting_text(Some(value)) is None,
        setting_text(None) is None,
{
    if s.len() > 0 && !text::is_white_space(s[0]) && !text::is_white_space(s.last()) {
        text::law_white_space_is_cut_off(front, s, back);
    }
    text::law_white_space_alone_is_nothing(front);
}

} // verus!
