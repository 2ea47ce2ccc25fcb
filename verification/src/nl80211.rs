//! Regulatory-domain data as the kernel reports it over nl80211, and the
//! rules for reading it. Talking to the kernel is left to the caller: it
//! hands over each attribute of a reply as a kind and a payload.

use crate::binary::le32;
use crate::binary::parse_u32;
use vstd::prelude::*;
use vstd::utf8::encode_utf8;

verus! {

/// The device that a command is about.
#[derive(Clone, Copy, Debug, PartialEq, Eq, Structural)]
pub enum CommandIdBy {
    /// A wireless device, by its index.
    Phy(u32),
    /// A network interface, by its index.
    NetDev(u32),
    /// A virtual interface, by its identifier.
    WDev(u32),
    /// No device.
    Unset,
}

/// The attribute that names the device in a command.
#[derive(Clone, Copy, Debug, PartialEq, Eq, Structural)]
pub enum DeviceAttr {
    Wiphy,
    Ifindex,
    Wdev,
}

impl CommandIdBy {
    /// The attribute to add to a command for this device, and its value.
    pub open spec fn spec_attr(self) -> Option<(DeviceAttr, u32)> {
        match self {
            CommandIdBy::Phy(id) => Some((DeviceAttr::Wiphy, id)),
            CommandIdBy::NetDev(id) => Some((DeviceAttr::Ifindex, id)),
            CommandIdBy::WDev(id) => Some((DeviceAttr::Wdev, id)),
            CommandIdBy::Unset => None,
        }
    }

    /// The attribute to add to a command for this device, and its value;
    /// none where the command is about no device.
    pub fn attr(&self) -> (r: Option<(DeviceAttr, u32)>)
        ensures
            r == self.spec_attr(),
    {
        match self {
            CommandIdBy::Phy(id) => Some((DeviceAttr::Wiphy, *id)),
            CommandIdBy::NetDev(id) => Some((DeviceAttr::Ifindex, *id)),
            CommandIdBy::WDev(id) => Some((DeviceAttr::Wdev, *id)),
            CommandIdBy::Unset => None,
        }
    }
}

/// Whether `c` is an upper-case ASCII letter.
pub open spec fn spec_is_alpha_upper(c: u8) -> bool {
    65 <= c <= 90
}

/// Whether `text` is two upper-case ASCII letters: a country code.
pub open spec fn spec_is_alpha2(text: Seq<u8>) -> bool {
    text.len() == 2 && spec_is_alpha_upper(text[0]) && spec_is_alpha_upper(text[1])
}

/// Whether `text` is "00", the name of the world regulatory domain.
pub open spec fn spec_is_world_regdom(text: Seq<u8>) -> bool {
    text.len() == 2 && text[0] == 48 && text[1] == 48
}

/// Whether `str` is two upper-case ASCII letters: a country code.
pub fn is_alpha2(str: &str) -> (r: bool)
    ensures
        r == spec_is_alpha2(encode_utf8(str@)),
{
    let bytes = str.as_bytes();
    bytes.len() == 2 && is_alpha_upper(bytes[0]) && is_alpha_upper(bytes[1])
}

/// Whether `c` is an upper-case ASCII letter.
pub fn is_alpha_upper(c: u8) -> (r: bool)
    ensures
        r == spec_is_alpha_upper(c),
{
    c >= 65 && c <= 90
}

/// Whether `str` is "00", the name of the world regulatory domain.
pub fn is_world_regdom(str: &str) -> (r: bool)
    ensures
        r == spec_is_world_regdom(encode_utf8(str@)),
{
    let bytes = str.as_bytes();
    bytes.len() == 2 && bytes[0] == 48 && bytes[1] == 48
}

/// Whether the kernel can be told that `country` is the current regulatory
/// domain: it is a country code or the world domain.
pub fn is_regdom(country: &str) -> (r: bool)
    ensures
        r == (spec_is_alpha2(encode_utf8(country@)) || spec_is_world_regdom(
            encode_utf8(country@),
        )),
{
    is_alpha2(country) || is_world_regdom(country)
}

/// One rule of a regulatory domain.
#[derive(Clone, Copy, Debug, PartialEq, Eq, Structural)]
pub struct RegRule {
    pub flags: u32,
    pub start_freq_khz: u32,
    pub end_freq_khz: u32,
    pub max_bw_khz: u32,
    pub max_ant_gain_mbi: u32,
    pub max_eirp_mbm: u32,
    pub dfs_cac_time: u32,
}

/// The attributes of a rule.
#[derive(Clone, Copy, Debug, PartialEq, Eq, Structural)]
pub enum RegRuleAttr {
    Flags,
    FreqRangeStart,
    FreqRangeEnd,
    FreqRangeMaxBw,
    PowerRuleMaxAntGain,
    PowerRuleMaxEirp,
    DfsCacTime,
    /// Any attribute that a rule does not keep.
    Other,
}

impl RegRule {
    /// The rule with the field that `attr` names set to `value`.
    pub open spec fn with(self, attr: RegRuleAttr, value: u32) -> RegRule {
        match attr {
            RegRuleAttr::Flags => RegRule { flags: value, ..self },
            RegRuleAttr::FreqRangeStart => RegRule { start_freq_khz: value, ..self },
            RegRuleAttr::FreqRangeEnd => RegRule { end_freq_khz: value, ..self },
            RegRuleAttr::FreqRangeMaxBw => RegRule { max_bw_khz: value, ..self },
            RegRuleAttr::PowerRuleMaxAntGain => RegRule { max_ant_gain_mbi: value, ..self },
            RegRuleAttr::PowerRuleMaxEirp => RegRule { max_eirp_mbm: value, ..self },
            RegRuleAttr::DfsCacTime => RegRule { dfs_cac_time: value, ..self },
            RegRuleAttr::Other => self,
        }
    }

    /// Takes in one attribute of a rule: the field that it names is set to
    /// the four bytes of its payload, least significant first. An attribute
    /// that a rule does not keep changes nothing.
    pub fn read_attr(&mut self, attr: RegRuleAttr, payload: &[u8])
        requires
            attr != RegRuleAttr::Other ==> payload@.len() == 4,
        ensures
            *final(self) == (if attr == RegRuleAttr::Other {
                *old(self)
            } else {
                old(self).with(attr, le32(payload@))
            }),
    {
        match attr {
            RegRuleAttr::Flags => {
                self.flags = parse_u32(payload, false);
            },
            RegRuleAttr::FreqRangeStart => {
                self.start_freq_khz = parse_u32(payload, false);
            },
            RegRuleAttr::FreqRangeEnd => {
                self.end_freq_khz = parse_u32(payload, false);
            },
            RegRuleAttr::FreqRangeMaxBw => {
                self.max_bw_khz = parse_u32(payload, false);
            },
            RegRuleAttr::PowerRuleMaxAntGain => {
                self.max_ant_gain_mbi = parse_u32(payload, false);
            },
            RegRuleAttr::PowerRuleMaxEirp => {
                self.max_eirp_mbm = parse_u32(payload, false);
            },
            RegRuleAttr::DfsCacTime => {
                self.dfs_cac_time = parse_u32(payload, false);
            },
            RegRuleAttr::Other => {},
        }
    }
}

impl Default for RegRule {
    fn default() -> (rule: RegRule)
        ensures
            rule == (RegRule {
                flags: 0,
                start_freq_khz: 0,
                end_freq_khz: 0,
                max_bw_khz: 0,
                max_ant_gain_mbi: 0,
                max_eirp_mbm: 0,
                dfs_cac_time: 0,
            }),
    {
        RegRule {
            flags: 0,
            start_freq_khz: 0,
            end_freq_khz: 0,
            max_bw_khz: 0,
            max_ant_gain_mbi: 0,
            max_eirp_mbm: 0,
            dfs_cac_time: 0,
        }
    }
}

/// A regulatory domain.
#[derive(Debug)]
pub struct RegData {
    pub country: String,
    pub rules: Vec<RegRule>,
    pub phy_id: Option<u32>,
    pub self_managed: bool,
    pub dfs_domain: Option<u8>,
}

/// What a regulatory domain holds.
pub struct RegDataView {
    pub country: Seq<char>,
    pub rules: Seq<RegRule>,
    pub phy_id: Option<u32>,
    pub self_managed: bool,
    pub dfs_domain: Option<u8>,
}

impl View for RegData {
    type V = RegDataView;

    open spec fn view(&self) -> RegDataView {
        RegDataView {
            country: self.country@,
            rules: self.rules@,
            phy_id: self.phy_id,
            self_managed: self.self_managed,
            dfs_domain: self.dfs_domain,
        }
    }
}

/// The attributes of a regulatory domain that are read. The rules of a
/// domain are nested attributes: they are read one by one into a `RegRule`
/// and added with `add_rule`.
#[derive(Clone, Copy, Debug, PartialEq, Eq, Structural)]
pub enum RegAttr {
    RegAlpha2,
    Wiphy,
    WiphySelfManagedReg,
    DfsRegion,
    /// Any attribute that is not read.
    Other,
}

impl RegAttr {
    /// The least number of bytes that the payload of this attribute has.
    pub open spec fn min_payload(self) -> int {
        match self {
            RegAttr::RegAlpha2 => 2,
            RegAttr::Wiphy => 4,
            RegAttr::DfsRegion => 1,
            _ => 0,
        }
    }
}

impl RegDataView {
    /// The domain after one of its attributes was read: the two bytes of a
    /// country code are added to the country, each as the character with
    /// that code; the DFS region is the first byte of its payload; the mark
    /// of a self-managed device sets `self_managed`. The index of the
    /// device and any other attribute change nothing.
    pub open spec fn with(self, attr: RegAttr, payload: Seq<u8>) -> RegDataView {
        match attr {
            RegAttr::RegAlpha2 => RegDataView {
                country: self.country.push(payload[0] as char).push(payload[1] as char),
                ..self
            },
            RegAttr::WiphySelfManagedReg => RegDataView { self_managed: true, ..self },
            RegAttr::DfsRegion => RegDataView { dfs_domain: Some(payload[0]), ..self },
            _ => self,
        }
    }
}

/// `String::push`: the character is added at the end of the string.
#[verifier::external_body]
fn string_push(text: &mut String, c: char)
    ensures
        final(text)@ == old(text)@.push(c),
{
    text.push(c)
}

impl RegData {
    /// Takes in one attribute of a regulatory domain.
    pub fn read_attr(&mut self, attr: RegAttr, payload: &[u8])
        requires
            payload@.len() >= attr.min_payload(),
            attr == RegAttr::Wiphy ==> payload@.len() == 4,
        ensures
            final(self)@ == old(self)@.with(attr, payload@),
    {
        match attr {
            RegAttr::RegAlpha2 => {
                string_push(&mut self.country, payload[0] as char);
                string_push(&mut self.country, payload[1] as char);
            },
            RegAttr::Wiphy => {
                let _ = parse_u32(payload, false);
            },
            RegAttr::WiphySelfManagedReg => {
                self.self_managed = true;
            },
            RegAttr::DfsRegion => {
                self.dfs_domain = Some(payload[0]);
            },
            RegAttr::Other => {},
        }
    }

    /// Adds a rule behind those that the domain has.
    pub fn add_rule(&mut self, rule: RegRule)
        ensures
            final(self)@ == (RegDataView { rules: old(self)@.rules.push(rule), ..old(self)@ }),
    {
        self.rules.push(rule);
    }
}

impl Default for RegData {
    fn default() -> (data: RegData)
        ensures
            data@ == (RegDataView {
                country: Seq::<char>::empty(),
                rules: Seq::<RegRule>::empty(),
                phy_id: None,
                self_managed: false,
                dfs_domain: None,
            }),
    {
        RegData {
            country: String::new(),
            rules: Vec::new(),
            phy_id: None,
            self_managed: false,
            dfs_domain: None,
        }
    }
}

} // verus!
