use vstd::prelude::*;

verus! {

/// Number of data bits per character.
#[derive(Debug, Clone, Copy, PartialEq, Eq, Structural)]
pub enum DataBits {
    Five,
    Six,
    Seven,
    Eight,
}

/// Flow control discipline.
#[derive(Debug, Clone, Copy, PartialEq, Eq, Structural)]
pub enum FlowControl {
    NoFlowControl,
    Software,
    Hardware,
}

/// Parity checking mode.
#[derive(Debug, Clone, Copy, PartialEq, Eq, Structural)]
pub enum Parity {
    NoParity,
    Odd,
    Even,
}

/// Number of stop bits.
#[derive(Debug, Clone, Copy, PartialEq, Eq, Structural)]
pub enum StopBits {
    One,
    Two,
}

/// Read timeout used when the caller gives none.
pub const DEFAULT_TIMEOUT_MS: u64 = 200;

pub open spec fn data_bits_of(value: Option<usize>) -> DataBits {
    match value {
        Some(5) => DataBits::Five,
        Some(6) => DataBits::Six,
        Some(7) => DataBits::Seven,
        _ => DataBits::Eight,
    }
}

pub open spec fn flow_control_of(value: Option<Seq<char>>) -> FlowControl {
    match value {
        Some(s) => if s == "Software"@ {
            FlowControl::Software
        } else if s == "Hardware"@ {
            FlowControl::Hardware
        } else {
            FlowControl::NoFlowControl
        },
        None => FlowControl::NoFlowControl,
    }
}

pub open spec fn parity_of(value: Option<Seq<char>>) -> Parity {
    match value {
        Some(s) => if s == "Odd"@ {
            Parity::Odd
        } else if s == "Even"@ {
            Parity::Even
        } else {
            Parity::NoParity
        },
        None => Parity::NoParity,
    }
}

pub open spec fn stop_bits_of(value: Option<usize>) -> StopBits {
    match value {
        Some(1) => StopBits::One,
        _ => StopBits::Two,
    }
}

pub open spec fn text_of(value: Option<String>) -> Option<Seq<char>> {
    match value {
        Some(s) => Some(s@),
        None => None,
    }
}

/// Decodes a data-bit count; anything but 5, 6 or 7 gives eight bits.
pub fn get_data_bits(value: Option<usize>) -> (r: DataBits)
    ensures
        r == data_bits_of(value),
{
    match value {
        Some(5) => DataBits::Five,
        Some(6) => DataBits::Six,
        Some(7) => DataBits::Seven,
        _ => DataBits::Eight,
    }
}

/// Decodes a flow-control name; an unknown or missing name gives no control.
pub fn get_flow_control(value: Option<String>) -> (r: FlowControl)
    ensures
        r == flow_control_of(text_of(value)),
{
    match value {
        Some(s) => {
            if s == String::from_str("Software") {
                FlowControl::Software
            } else if s == String::from_str("Hardware") {
                FlowControl::Hardware
            } else {
                FlowControl::NoFlowControl
            }
        },
        None => FlowControl::NoFlowControl,
    }
}

/// Decodes a parity name; an unknown or missing name gives no parity.
pub fn get_parity(value: Option<String>) -> (r: Parity)
    ensures
        r == parity_of(text_of(value)),
{
    match value {
        Some(s) => {
            if s == String::from_str("Odd") {
                Parity::Odd
            } else if s == String::from_str("Even") {
                Parity::Even
            } else {
                Parity::NoParity
            }
        },
        None => Parity::NoParity,
    }
}

/// Decodes a stop-bit count; anything but 1 gives two stop bits.
pub fn get_stop_bits(value: Option<usize>) -> (r: StopBits)
    ensures
        r == stop_bits_of(value),
{
    match value {
        Some(1) => StopBits::One,
        _ => StopBits::Two,
    }
}

/// Settings with which a device is opened.
#[derive(Debug, Clone, Copy, PartialEq, Eq)]
pub struct PortConfig {
    pub baud_rate: u32,
    pub data_bits: DataBits,
    pub flow_control: FlowControl,
    pub parity: Parity,
    pub stop_bits: StopBits,
    pub timeout_ms: u64,
}

impl PortConfig {
    /// Builds a configuration from optional caller values, each falling back
    /// to its default when absent or unrecognised.
    pub fn from_options(
        baud_rate: u32,
        data_bits: Option<usize>,
        flow_control: Option<String>,
        parity: Option<String>,
        stop_bits: Option<usize>,
        timeout: Option<u64>,
    ) -> (r: PortConfig)
        ensures
            r.baud_rate == baud_rate,
            r.data_bits == data_bits_of(data_bits),
            r.flow_control == flow_control_of(text_of(flow_control)),
            r.parity == parity_of(text_of(parity)),
            r.stop_bits == stop_bits_of(stop_bits),
            r.timeout_ms == (match timeout {
                Some(t) => t,
                None => DEFAULT_TIMEOUT_MS,
            }),
    {
        PortConfig {
            baud_rate,
            data_bits: get_data_bits(data_bits),
            flow_control: get_flow_control(flow_control),
            parity: get_parity(parity),
            stop_bits: get_stop_bits(stop_bits),
            timeout_ms: match timeout {
                Some(t) => t,
                None => DEFAULT_TIMEOUT_MS,
            },
        }
    }
}

} // verus!
