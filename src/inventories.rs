//! Node descriptors, as the fleet catalog supplies them.
use crate::text::{str_eq, views};
use vstd::prelude::*;

verus! {

/// Queue that a node must accept to be benchmarked.
pub const DEFAULT_QUEUE: &'static str = "default";

pub struct SupportedJobTypes {
    pub queues: Vec<String>,
}

pub struct Architecture {
    pub cpu_core_numbering: String,
    pub nb_cores: u32,
    pub nb_procs: i32,
    pub nb_threads: i32,
    pub platform_type: String,
}

/// A processor version as the catalog gives it: text, or a number. A number is
/// held as the bit pattern of its 64-bit IEEE 754 value; two numbers are the
/// same version when they compare equal as floating-point values.
pub enum StrOrFloat {
    Str(String),
    Float(u64),
}

/// The bit pattern `b` encodes a NaN: all exponent bits set, a non-zero
/// fraction.
pub open spec fn is_nan_bits(b: u64) -> bool {
    b & 0x7FF0_0000_0000_0000 == 0x7FF0_0000_0000_0000 && b & 0x000F_FFFF_FFFF_FFFF != 0
}

/// IEEE 754 equality of the values that two bit patterns encode: no NaN
/// equals anything, the two zeros are equal, other values are equal when
/// their patterns are.
pub open spec fn float_bits_eq(a: u64, b: u64) -> bool {
    !is_nan_bits(a) && !is_nan_bits(b) && (a == b || (a | b) & 0x7FFF_FFFF_FFFF_FFFF == 0)
}

fn float_eq(a: u64, b: u64) -> (r: bool)
    ensures
        r == float_bits_eq(a, b),
{
    let nan_a = a & 0x7FF0_0000_0000_0000 == 0x7FF0_0000_0000_0000 && a & 0x000F_FFFF_FFFF_FFFF != 0;
    let nan_b = b & 0x7FF0_0000_0000_0000 == 0x7FF0_0000_0000_0000 && b & 0x000F_FFFF_FFFF_FFFF != 0;
    !nan_a && !nan_b && (a == b || (a | b) & 0x7FFF_FFFF_FFFF_FFFF == 0)
}

impl StrOrFloat {
    pub open spec fn same(self, other: StrOrFloat) -> bool {
        match (self, other) {
            (StrOrFloat::Str(a), StrOrFloat::Str(b)) => a@ == b@,
            (StrOrFloat::Float(a), StrOrFloat::Float(b)) => float_bits_eq(a, b),
            _ => false,
        }
    }

    pub fn same_as(&self, other: &StrOrFloat) -> (r: bool)
        ensures
            r == self.same(*other),
    {
        match (self, other) {
            (StrOrFloat::Str(a), StrOrFloat::Str(b)) => str_eq(a.as_str(), b.as_str()),
            (StrOrFloat::Float(a), StrOrFloat::Float(b)) => float_eq(*a, *b),
            _ => false,
        }
    }
}

pub struct Processor {
    pub cache_l1: Option<i32>,
    pub cache_l1d: i32,
    pub cache_l1i: i32,
    pub cache_l2: i32,
    pub cache_l3: i32,
    pub clock_speed: i64,
    pub ht_capable: bool,
    pub instruction_set: String,
    pub microarchitecture: String,
    pub microcode: Option<String>,
    pub model: String,
    pub other_description: String,
    pub vendor: String,
    pub version: StrOrFloat,
}

pub struct OperatingSystem {
    pub cstate_driver: String,
    pub cstate_governor: String,
    pub pstate_driver: String,
    pub pstate_governor: String,
    pub turboboost_enabled: bool,
}

pub struct Node {
    pub uid: String,
    pub cluster: Option<String>,
    pub exotic: bool,
    pub processor: Processor,
    pub architecture: Architecture,
    pub operating_system: Option<OperatingSystem>,
    pub supported_job_types: SupportedJobTypes,
}

/// Processor vendors whose nodes are benchmarked.
pub open spec fn supported_vendor(v: Seq<char>) -> bool {
    v == "Intel"@ || v == "AMD"@ || v == "Cavium"@
}

impl Node {
    /// Whether the node is to be benchmarked: its vendor is supported and it
    /// accepts the default queue.
    pub open spec fn to_be_deployed(&self) -> bool {
        supported_vendor(self.processor.vendor@)
            && views(self.supported_job_types.queues@).contains(DEFAULT_QUEUE@)
    }

    pub fn is_to_be_deployed(&self) -> (r: bool)
        ensures
            r == self.to_be_deployed(),
    {
        proof {
            reveal_strlit("Intel");
            reveal_strlit("AMD");
            reveal_strlit("Cavium");
        }
        let vendor = self.processor.vendor.as_str();
        let supported = str_eq(vendor, "Intel") || str_eq(vendor, "AMD") || str_eq(vendor, "Cavium");
        if !supported {
            return false;
        }
        let queues = &self.supported_job_types.queues;
        let mut i: usize = 0;
        while i < queues.len()
            invariant
                i <= queues.len(),
                supported_vendor(self.processor.vendor@),
                queues@ == self.supported_job_types.queues@,
                forall|j: int| 0 <= j < i ==> queues@[j]@ != DEFAULT_QUEUE@,
            decreases queues.len() - i,
        {
            if str_eq(queues[i].as_str(), DEFAULT_QUEUE) {
                proof {
                    assert(views(queues@).len() == queues@.len());
                    assert(views(queues@)[i as int] == DEFAULT_QUEUE@);
                    assert(views(queues@).contains(DEFAULT_QUEUE@));
                }
                return true;
            }
            i = i + 1;
        }
        proof {
            if views(queues@).contains(DEFAULT_QUEUE@) {
                let j = choose|j: int| 0 <= j < views(queues@).len() && views(queues@)[j] == DEFAULT_QUEUE@;
                assert(queues@[j]@ == DEFAULT_QUEUE@);
            }
        }
        false
    }
}

} // verus!
