//! The engine's configuration and the rules that a configuration must meet
//! before the engine takes it.

use crate::error::EngineError;
use crate::net::IpNetwork;
use crate::text::{decimal, push_decimal};
use std::collections::HashMap;
use vstd::prelude::*;
use vstd::string::StringExecFns;

verus! {

/// `serde_json::Value`, any JSON value. Rules carry such values along in
/// their overrides; the engine never looks into one.
#[verifier::external_type_specification]
#[verifier::external_body]
pub struct ExJsonValue(serde_json::Value);

#[derive(Debug, Clone)]
pub struct Config {
    pub global: GlobalConfig,
    pub rules: Vec<Rule>,
    pub limits: Limits,
    pub transforms: TransformParams,
}

impl Default for Config {
    fn default() -> (config: Self)
        ensures
            config.global.is_default(),
            config.rules@.len() == 0,
            config.limits == Limits::defaults(),
            config.transforms == TransformParams::defaults(),
            config.valid(),
    {
        Config {
            global: GlobalConfig::default(),
            rules: Vec::new(),
            limits: Limits::default(),
            transforms: TransformParams::default(),
        }
    }
}

/// The first rule at or after `from` that has a fault, or the number of
/// rules when none has.
pub open spec fn first_faulty_rule(rules: Seq<Rule>, from: int) -> int
    decreases rules.len() - from,
{
    if from < 0 || from >= rules.len() {
        rules.len() as int
    } else if rules[from].fault() is Some {
        from
    } else {
        first_faulty_rule(rules, from + 1)
    }
}

impl Config {
    /// The first rule of validation that the configuration breaks, as the
    /// field at fault and the complaint about it; `None` for a configuration
    /// that breaks none. The rules, in the order in which they are checked:
    /// the three size limits are positive; the smallest fragment is positive
    /// and no larger than the largest; the longest jitter is within the
    /// limit; the padding fits an MTU of 1500 bytes; every rule is sound.
    pub open spec fn fault(&self) -> Option<(Seq<char>, Seq<char>)> {
        if self.limits.max_flows == 0 {
            Some(("limits.max_flows"@, "must be > 0"@))
        } else if self.limits.max_queue_size == 0 {
            Some(("limits.max_queue_size"@, "must be > 0"@))
        } else if self.limits.max_memory_mb == 0 {
            Some(("limits.max_memory_mb"@, "must be > 0"@))
        } else if self.transforms.fragment.min_size == 0 {
            Some(("transforms.fragment.min_size"@, "must be > 0"@))
        } else if self.transforms.fragment.max_size < self.transforms.fragment.min_size {
            Some(("transforms.fragment.max_size"@, "must be >= min_size"@))
        } else if self.transforms.jitter.max_ms > self.limits.max_jitter_ms {
            Some(
                (
                    "transforms.jitter.max_ms"@,
                    "exceeds safety limit of "@ + decimal(self.limits.max_jitter_ms as nat) + "ms"@,
                ),
            )
        } else if self.transforms.padding.max_bytes > 1500 {
            Some(("transforms.padding.max_bytes"@, "exceeds MTU (1500 bytes)"@))
        } else {
            let i = first_faulty_rule(self.rules@, 0);
            if i < self.rules@.len() {
                Some(
                    (
                        "rules["@ + decimal(i as nat) + "]"@,
                        "Configuration validation failed: "@ + self.rules@[i].fault().unwrap().1,
                    ),
                )
            } else {
                None
            }
        }
    }

    /// Whether the configuration breaks no rule of validation.
    pub open spec fn valid(&self) -> bool {
        self.fault() is None
    }

    /// Checks the configuration against the rules of `fault`, and reports the
    /// first that it breaks.
    #[verifier::loop_isolation(false)]
    pub fn validate(&self) -> (checked: Result<(), EngineError>)
        ensures
            match self.fault() {
                Some((field, message)) => checked matches Err(error) && error.is_validation(
                    field,
                    message,
                ),
                None => checked is Ok,
            },
    {
        if self.limits.max_flows == 0 {
            return Err(EngineError::validation("limits.max_flows", "must be > 0"));
        }
        if self.limits.max_queue_size == 0 {
            return Err(EngineError::validation("limits.max_queue_size", "must be > 0"));
        }
        if self.limits.max_memory_mb == 0 {
            return Err(EngineError::validation("limits.max_memory_mb", "must be > 0"));
        }
        if self.transforms.fragment.min_size == 0 {
            return Err(EngineError::validation("transforms.fragment.min_size", "must be > 0"));
        }
        if self.transforms.fragment.max_size < self.transforms.fragment.min_size {
            return Err(
                EngineError::validation("transforms.fragment.max_size", "must be >= min_size"),
            );
        }
        if self.transforms.jitter.max_ms > self.limits.max_jitter_ms {
            let mut message = "exceeds safety limit of ".to_owned();
            push_decimal(&mut message, self.limits.max_jitter_ms);
            message.append("ms");
            return Err(EngineError::validation("transforms.jitter.max_ms", message.as_str()));
        }
        if self.transforms.padding.max_bytes > 1500 {
            return Err(
                EngineError::validation("transforms.padding.max_bytes", "exceeds MTU (1500 bytes)"),
            );
        }
        let mut i: usize = 0;
        while i < self.rules.len()
            invariant
                i <= self.rules@.len(),
                first_faulty_rule(self.rules@, i as int) == first_faulty_rule(self.rules@, 0),
            decreases self.rules@.len() - i,
        {
            if let Err(error) = self.rules[i].validate() {
                assert(first_faulty_rule(self.rules@, i as int) == i);
                let mut field = "rules[".to_owned();
                push_decimal(&mut field, i as u64);
                field.append("]");
                let message = error.describe();
                return Err(EngineError::validation(field.as_str(), message.as_str()));
            }
            i += 1;
        }
        Ok(())
    }

    /// A configuration to start from: everything switched on but jitter, a
    /// rule that fragments and pads TCP traffic to port 443 at priority 100,
    /// a rule that pads UDP traffic to port 53 at priority 90, and the limits
    /// and parameters that are the defaults.
    pub fn example() -> (config: Self)
        ensures
            config.valid(),
            config.global.is_default(),
            config.limits == Limits::defaults(),
            config.transforms == TransformParams::defaults(),
            config.rules@.len() == 2,
            config.rules@[0].name@ == "https-evasion"@,
            config.rules@[0].priority == 100,
            config.rules@[0].enabled,
            config.rules@[0].transforms@ == seq![TransformType::Fragment, TransformType::Padding],
            config.rules@[0].match_criteria.dst_ports matches Some(ports) && ports@ == seq![443u16],
            config.rules@[0].match_criteria.protocols matches Some(protocols) && protocols@
                == seq![Protocol::Tcp],
            config.rules@[1].name@ == "dns-protection"@,
            config.rules@[1].priority == 90,
            config.rules@[1].enabled,
            config.rules@[1].transforms@ == seq![TransformType::Padding],
            config.rules@[1].match_criteria.dst_ports matches Some(ports) && ports@ == seq![53u16],
            config.rules@[1].match_criteria.protocols matches Some(protocols) && protocols@
                == seq![Protocol::Udp],
    {
        let mut https = MatchCriteria::default();
        https.dst_ports = Some(vec![443u16]);
        https.protocols = Some(vec![Protocol::Tcp]);
        let mut dns = MatchCriteria::default();
        dns.dst_ports = Some(vec![53u16]);
        dns.protocols = Some(vec![Protocol::Udp]);
        let mut rules: Vec<Rule> = Vec::new();
        rules.push(
            Rule {
                name: "https-evasion".to_owned(),
                enabled: true,
                priority: 100,
                match_criteria: https,
                transforms: vec![TransformType::Fragment, TransformType::Padding],
                overrides: HashMap::new(),
            },
        );
        rules.push(
            Rule {
                name: "dns-protection".to_owned(),
                enabled: true,
                priority: 90,
                match_criteria: dns,
                transforms: vec![TransformType::Padding],
                overrides: HashMap::new(),
            },
        );
        let config = Config {
            global: GlobalConfig::default(),
            rules,
            limits: Limits::default(),
            transforms: TransformParams::default(),
        };
        proof {
            reveal_strlit("https-evasion");
            reveal_strlit("dns-protection");
            reveal_with_fuel(first_faulty_rule, 3);
            reveal_with_fuel(first_invalid_net, 2);
        }
        config
    }

    /// Takes over `other`, but keeps the rules held when `other` brings none.
    pub fn merge(&mut self, other: Config)
        ensures
            final(self).rules == if other.rules@.len() == 0 {
                old(self).rules
            } else {
                other.rules
            },
            final(self).global == other.global,
            final(self).limits == other.limits,
            final(self).transforms == other.transforms,
    {
        if other.rules.len() != 0 {
            self.rules = other.rules;
        }
        self.global = other.global;
        self.limits = other.limits;
        self.transforms = other.transforms;
    }
}

#[derive(Debug, Clone)]
pub struct GlobalConfig {
    pub enabled: bool,
    pub enable_fragmentation: bool,
    pub enable_jitter: bool,
    pub enable_padding: bool,
    pub enable_header_normalization: bool,
    pub log_level: String,
    pub json_logging: bool,
}

impl GlobalConfig {
    /// The switches as they are set by default: everything on but jitter and
    /// JSON logging, at log level `info`.
    pub open spec fn is_default(&self) -> bool {
        &&& self.enabled
        &&& self.enable_fragmentation
        &&& !self.enable_jitter
        &&& self.enable_padding
        &&& self.enable_header_normalization
        &&& self.log_level@ == "info"@
        &&& !self.json_logging
    }
}

impl Default for GlobalConfig {
    fn default() -> (global: Self)
        ensures
            global.is_default(),
    {
        GlobalConfig {
            enabled: true,
            enable_fragmentation: true,
            enable_jitter: false,
            enable_padding: true,
            enable_header_normalization: true,
            log_level: "info".to_owned(),
            json_logging: false,
        }
    }
}

#[derive(Debug, Clone)]
pub struct Rule {
    pub name: String,
    pub enabled: bool,
    /// The higher priority wins.
    pub priority: i32,
    pub match_criteria: MatchCriteria,
    pub transforms: Vec<TransformType>,
    /// Free-form settings that the engine carries along and never reads.
    pub overrides: HashMap<String, serde_json::Value>,
}

impl Rule {
    /// What is wrong with the rule, as the field at fault and the complaint:
    /// it has no name, it names no transform, or one of its address ranges is
    /// malformed.
    pub open spec fn fault(&self) -> Option<(Seq<char>, Seq<char>)> {
        if self.name@.len() == 0 {
            Some(("name"@, "cannot be empty"@))
        } else if self.transforms@.len() == 0 {
            Some(("transforms"@, "must specify at least one transform"@))
        } else {
            self.match_criteria.fault()
        }
    }

    pub fn validate(&self) -> (checked: Result<(), EngineError>)
        ensures
            match self.fault() {
                Some((field, message)) => checked matches Err(error) && error.is_validation(
                    field,
                    message,
                ),
                None => checked is Ok,
            },
    {
        if self.name.as_str().is_empty() {
            return Err(EngineError::validation("name", "cannot be empty"));
        }
        if self.transforms.len() == 0 {
            return Err(
                EngineError::validation("transforms", "must specify at least one transform"),
            );
        }
        self.match_criteria.validate()
    }
}

/// What a flow must meet for a rule to apply. A criterion that is `None`
/// admits every flow.
#[derive(Debug, Clone)]
pub struct MatchCriteria {
    pub dst_ip: Option<Vec<IpNetwork>>,
    pub src_ip: Option<Vec<IpNetwork>>,
    pub dst_ports: Option<Vec<u16>>,
    pub src_ports: Option<Vec<u16>>,
    pub protocols: Option<Vec<Protocol>>,
    pub domains: Option<Vec<String>>,
    pub process: Option<String>,
}

impl Default for MatchCriteria {
    fn default() -> (criteria: Self)
        ensures
            criteria.dst_ip is None,
            criteria.src_ip is None,
            criteria.dst_ports is None,
            criteria.src_ports is None,
            criteria.protocols is None,
            criteria.domains is None,
            criteria.process is None,
    {
        MatchCriteria {
            dst_ip: None,
            src_ip: None,
            dst_ports: None,
            src_ports: None,
            protocols: None,
            domains: None,
            process: None,
        }
    }
}

/// The first range at or after `from` that is malformed, or the number of
/// ranges when none is.
pub open spec fn first_invalid_net(nets: Seq<IpNetwork>, from: int) -> int
    decreases nets.len() - from,
{
    if from < 0 || from >= nets.len() {
        nets.len() as int
    } else if !nets[from].valid() {
        from
    } else {
        first_invalid_net(nets, from + 1)
    }
}

/// The complaint about a list of ranges: about the first that is malformed.
pub open spec fn nets_fault(nets: Option<Vec<IpNetwork>>) -> Option<Seq<char>> {
    match nets {
        Some(list) => {
            let i = first_invalid_net(list@, 0);
            if i < list@.len() {
                Some("invalid IP/CIDR: prefix length "@ + decimal(list@[i].prefix_len as nat))
            } else {
                None
            }
        },
        None => None,
    }
}

#[verifier::loop_isolation(false)]
fn check_nets(nets: &Option<Vec<IpNetwork>>) -> (complaint: Option<String>)
    ensures
        match nets_fault(*nets) {
            Some(message) => complaint matches Some(text) && text@ == message,
            None => complaint is None,
        },
{
    if let Some(list) = nets {
        let mut i: usize = 0;
        while i < list.len()
            invariant
                i <= list@.len(),
                first_invalid_net(list@, i as int) == first_invalid_net(list@, 0),
            decreases list@.len() - i,
        {
            if !list[i].is_valid() {
                assert(first_invalid_net(list@, i as int) == i);
                let mut text = "invalid IP/CIDR: prefix length ".to_owned();
                push_decimal(&mut text, list[i].prefix_len as u64);
                return Some(text);
            }
            i += 1;
        }
    }
    None
}

impl MatchCriteria {
    /// What is wrong with the criteria: a malformed range among the
    /// destinations, or else among the sources.
    pub open spec fn fault(&self) -> Option<(Seq<char>, Seq<char>)> {
        match nets_fault(self.dst_ip) {
            Some(message) => Some(("dst_ip"@, message)),
            None => match nets_fault(self.src_ip) {
                Some(message) => Some(("src_ip"@, message)),
                None => None,
            },
        }
    }

    pub fn validate(&self) -> (checked: Result<(), EngineError>)
        ensures
            match self.fault() {
                Some((field, message)) => checked matches Err(error) && error.is_validation(
                    field,
                    message,
                ),
                None => checked is Ok,
            },
    {
        if let Some(message) = check_nets(&self.dst_ip) {
            return Err(EngineError::validation("dst_ip", message.as_str()));
        }
        if let Some(message) = check_nets(&self.src_ip) {
            return Err(EngineError::validation("src_ip", message.as_str()));
        }
        Ok(())
    }

    /// Whether the criteria admit every flow: none of them is set.
    pub fn is_catch_all(&self) -> (yes: bool)
        ensures
            yes == (self.dst_ip is None && self.src_ip is None && self.dst_ports is None
                && self.src_ports is None && self.protocols is None && self.domains is None
                && self.process is None),
    {
        self.dst_ip.is_none() && self.src_ip.is_none() && self.dst_ports.is_none()
            && self.src_ports.is_none() && self.protocols.is_none() && self.domains.is_none()
            && self.process.is_none()
    }
}

#[derive(Debug, Clone, Copy, PartialEq, Eq, Hash, Structural)]
pub enum Protocol {
    Tcp,
    Udp,
    Icmp,
}

#[derive(Debug, Clone, Copy, PartialEq, Eq, Hash, Structural)]
pub enum TransformType {
    Fragment,
    Resegment,
    Padding,
    Jitter,
    HeaderNormalization,
    Decoy,
    Reorder,
}

#[derive(Debug, Clone, Copy)]
pub struct TransformParams {
    pub fragment: FragmentParams,
    pub resegment: ResegmentParams,
    pub padding: PaddingParams,
    pub jitter: JitterParams,
    pub header: HeaderParams,
    pub decoy: DecoyParams,
}

impl TransformParams {
    pub open spec fn defaults() -> Self {
        TransformParams {
            fragment: FragmentParams::defaults(),
            resegment: ResegmentParams::defaults(),
            padding: PaddingParams::defaults(),
            jitter: JitterParams::defaults(),
            header: HeaderParams::defaults(),
            decoy: DecoyParams::defaults(),
        }
    }
}

impl Default for TransformParams {
    fn default() -> (params: Self)
        ensures
            params == Self::defaults(),
    {
        TransformParams {
            fragment: FragmentParams::default(),
            resegment: ResegmentParams::default(),
            padding: PaddingParams::default(),
            jitter: JitterParams::default(),
            header: HeaderParams::default(),
            decoy: DecoyParams::default(),
        }
    }
}

#[derive(Debug, Clone, Copy)]
pub struct FragmentParams {
    pub min_size: usize,
    pub max_size: usize,
    pub split_at_offset: Option<usize>,
    pub randomize: bool,
}

impl FragmentParams {
    pub open spec fn defaults() -> Self {
        FragmentParams { min_size: 1, max_size: 40, split_at_offset: None, randomize: true }
    }
}

impl Default for FragmentParams {
    fn default() -> (params: Self)
        ensures
            params == Self::defaults(),
    {
        FragmentParams { min_size: 1, max_size: 40, split_at_offset: None, randomize: true }
    }
}

#[derive(Debug, Clone, Copy)]
pub struct ResegmentParams {
    pub segment_size: usize,
    pub max_segments: usize,
}

impl ResegmentParams {
    pub open spec fn defaults() -> Self {
        ResegmentParams { segment_size: 16, max_segments: 8 }
    }
}

impl Default for ResegmentParams {
    fn default() -> (params: Self)
        ensures
            params == Self::defaults(),
    {
        ResegmentParams { segment_size: 16, max_segments: 8 }
    }
}

#[derive(Debug, Clone, Copy)]
pub struct PaddingParams {
    pub min_bytes: usize,
    pub max_bytes: usize,
    pub fill_byte: Option<u8>,
}

impl PaddingParams {
    pub open spec fn defaults() -> Self {
        PaddingParams { min_bytes: 0, max_bytes: 64, fill_byte: None }
    }
}

impl Default for PaddingParams {
    fn default() -> (params: Self)
        ensures
            params == Self::defaults(),
    {
        PaddingParams { min_bytes: 0, max_bytes: 64, fill_byte: None }
    }
}

#[derive(Debug, Clone, Copy)]
pub struct JitterParams {
    /// The shortest delay, in milliseconds.
    pub min_ms: u64,
    /// The longest delay, in milliseconds.
    pub max_ms: u64,
}

impl JitterParams {
    pub open spec fn defaults() -> Self {
        JitterParams { min_ms: 0, max_ms: 50 }
    }

    /// The shortest and the longest delay, in milliseconds.
    pub fn as_duration_range(&self) -> (range: (u64, u64))
        ensures
            range == (self.min_ms, self.max_ms),
    {
        (self.min_ms, self.max_ms)
    }
}

impl Default for JitterParams {
    fn default() -> (params: Self)
        ensures
            params == Self::defaults(),
    {
        JitterParams { min_ms: 0, max_ms: 50 }
    }
}

#[derive(Debug, Clone, Copy)]
pub struct HeaderParams {
    pub normalize_ttl: bool,
    pub ttl_value: u8,
    pub normalize_window: bool,
    pub randomize_ip_id: bool,
}

impl HeaderParams {
    pub open spec fn defaults() -> Self {
        HeaderParams {
            normalize_ttl: false,
            ttl_value: 64,
            normalize_window: false,
            randomize_ip_id: true,
        }
    }
}

impl Default for HeaderParams {
    fn default() -> (params: Self)
        ensures
            params == Self::defaults(),
    {
        HeaderParams {
            normalize_ttl: false,
            ttl_value: 64,
            normalize_window: false,
            randomize_ip_id: true,
        }
    }
}

#[derive(Debug, Clone, Copy)]
pub struct DecoyParams {
    pub send_before: bool,
    pub send_after: bool,
    /// The TTL written into a decoy.
    pub ttl: u8,
    /// How many packets in a thousand get a decoy: none at 0, every packet
    /// at 1000 and above.
    pub probability_permille: u32,
}

impl DecoyParams {
    pub open spec fn defaults() -> Self {
        DecoyParams { send_before: false, send_after: false, ttl: 1, probability_permille: 0 }
    }
}

impl Default for DecoyParams {
    fn default() -> (params: Self)
        ensures
            params == Self::defaults(),
    {
        DecoyParams { send_before: false, send_after: false, ttl: 1, probability_permille: 0 }
    }
}

#[derive(Debug, Clone, Copy)]
pub struct Limits {
    pub max_flows: usize,
    pub max_queue_size: usize,
    pub max_memory_mb: usize,
    pub max_jitter_ms: u64,
    pub flow_timeout_secs: u64,
    pub log_rate_limit: u32,
}

impl Limits {
    pub open spec fn defaults() -> Self {
        Limits {
            max_flows: 10_000,
            max_queue_size: 1_000,
            max_memory_mb: 128,
            max_jitter_ms: 500,
            flow_timeout_secs: 120,
            log_rate_limit: 100,
        }
    }
}

impl Default for Limits {
    fn default() -> (limits: Self)
        ensures
            limits == Self::defaults(),
    {
        Limits {
            max_flows: 10_000,
            max_queue_size: 1_000,
            max_memory_mb: 128,
            max_jitter_ms: 500,
            flow_timeout_secs: 120,
            log_rate_limit: 100,
        }
    }
}

} // verus!
