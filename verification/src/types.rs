use vstd::prelude::*;

verus! {

/// Service tier a node runs at, from smallest to largest.
#[derive(Clone, Copy, Debug, PartialEq, Eq, Structural)]
pub enum Tier {
    Nano,
    Standard,
    Pro,
    Max,
}

/// A node's public key: 32 raw bytes.
#[derive(Clone, Copy, Debug, PartialEq, Eq)]
pub struct PublicKey(pub [u8; 32]);

/// Element type of a tensor's data.
#[allow(non_camel_case_types)]
#[derive(Clone, Copy, Debug, PartialEq, Eq, Structural)]
pub enum TensorDType {
    INT8,
}

/// A tensor: its elements, its shape and the type of its elements.
#[derive(Clone, Debug)]
pub struct Tensor {
    pub data: Vec<u8>,
    pub shape: Vec<u32>,
    pub dtype: TensorDType,
}

/// Position of an inference run in its generation loop.
#[derive(Clone, Copy, Debug, PartialEq, Eq, Structural)]
pub struct ExecutionState {
    pub position: u32,
}

/// How much an inference run generated.
#[derive(Clone, Copy, Debug, PartialEq, Eq, Structural)]
pub struct UsageStats {
    pub tokens_generated: u32,
}

/// What an inference run produced: its tokens and its usage.
#[derive(Clone, Debug)]
pub struct ExecutionOutput {
    pub tokens: Vec<String>,
    pub usage: UsageStats,
}

/// Token accounting reported back for one request.
#[derive(Clone, Copy, Debug, PartialEq, Eq, Structural)]
pub struct UsageInfo {
    pub prompt_tokens: u32,
    pub completion_tokens: u32,
    pub total_tokens: u32,
}

} // verus!
