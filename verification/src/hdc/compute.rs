//! Compute dispatch for hypervector operations, memory estimates and
//! hardware deployment profiles.
use vstd::prelude::*;
use crate::cognition::router::IntelligenceTier;
use crate::hdc::error::HdcError;
use crate::hdc::vector::{bind_seq, bundle_seq, permute_seq, same_dims, vec_views, BipolarVector};
use crate::text::{push_str, push_decimal, push_tenths, tenths_text, decimal, string_from};

verus! {

/// Dispatch interface for hypervector arithmetic. Every implementor,
/// local or remote, must compute the same results as the local bit
/// operations.
pub trait ComputeBackend {
    /// Binding: dimension-wise XOR of two vectors of equal dimension.
    fn bind(&self, a: &BipolarVector, b: &BipolarVector) -> (r: Result<BipolarVector, HdcError>)
        ensures
            a@.len() == b@.len() ==> (r matches Ok(v) && v@ == bind_seq(a@, b@)),
            a@.len() != b@.len() ==> r is Err,
    ;

    /// Bundling: majority vote of a non-empty family of equal dimension.
    fn bundle(&self, vectors: &[&BipolarVector]) -> (r: Result<BipolarVector, HdcError>)
        ensures
            vectors@.len() > 0 && same_dims(vec_views(vectors@)) ==> (r matches Ok(v) && v@
                == bundle_seq(vec_views(vectors@))),
            vectors@.len() == 0 || !same_dims(vec_views(vectors@)) ==> r is Err,
    ;

    /// Permutation: cyclic left shift by `shift` positions.
    fn permute(&self, v: &BipolarVector, shift: usize) -> (r: Result<BipolarVector, HdcError>)
        ensures
            r matches Ok(p) && p@ == permute_seq(v@, shift as nat),
    ;
}

/// Local backend: the bit operations run on the host CPU.
pub struct LocalBackend;

impl ComputeBackend for LocalBackend {
    fn bind(&self, a: &BipolarVector, b: &BipolarVector) -> (r: Result<BipolarVector, HdcError>) {
        a.bind(b)
    }

    fn bundle(&self, vectors: &[&BipolarVector]) -> (r: Result<BipolarVector, HdcError>) {
        BipolarVector::bundle(vectors)
    }

    fn permute(&self, v: &BipolarVector, shift: usize) -> (r: Result<BipolarVector, HdcError>) {
        v.permute(shift)
    }
}

/// Bytes of memory one megabyte stands for in the estimates.
pub const MEGABYTE: usize = 1048576;

/// Memory-footprint estimates of the system at a given scale.
pub struct ResourceEstimator;

/// Bytes one packed vector of `dim` bits takes: `ceil(dim / 8)`.
pub open spec fn vector_bytes(dim: int) -> int {
    (dim + 7) / 8
}

/// The estimate `(vector memory, overhead, total)` in bytes: vectors
/// packed to bits, 64 bytes of metadata per codebook entry and a fixed
/// 1 MiB baseline.
pub open spec fn memory_estimate(dim: int, num_vectors: int, num_codebook_entries: int) -> (int, int, int) {
    let vm = num_vectors * vector_bytes(dim);
    let cm = num_codebook_entries * (vector_bytes(dim) + 64);
    (vm, cm + MEGABYTE, vm + cm + MEGABYTE)
}

impl ResourceEstimator {
    /// Estimates `(vector_memory_bytes, overhead_bytes, total_bytes)`.
    pub fn estimate_memory(dim: usize, num_vectors: usize, num_codebook_entries: usize) -> (r: (
        usize,
        usize,
        usize,
    ))
        requires
            dim + 7 <= usize::MAX,
            memory_estimate(dim as int, num_vectors as int, num_codebook_entries as int).2
                <= usize::MAX,
        ensures
            r.0 == memory_estimate(dim as int, num_vectors as int, num_codebook_entries as int).0,
            r.1 == memory_estimate(dim as int, num_vectors as int, num_codebook_entries as int).1,
            r.2 == memory_estimate(dim as int, num_vectors as int, num_codebook_entries as int).2,
    {
        let vec_bytes = (dim + 7) / 8;
        proof {
            assert(0 <= num_vectors * vec_bytes) by (nonlinear_arith)
                requires
                    0 <= num_vectors,
                    0 <= vec_bytes,
            ;
            assert(0 <= num_codebook_entries * (vec_bytes + 64)) by (nonlinear_arith)
                requires
                    0 <= num_codebook_entries,
                    0 <= vec_bytes,
            ;
        }
        let vector_memory = num_vectors * vec_bytes;
        let codebook_memory = num_codebook_entries * (vec_bytes + 64);
        let overhead = 1024 * 1024;
        let total = vector_memory + codebook_memory + overhead;
        (vector_memory, codebook_memory + overhead, total)
    }

    /// Whether the total estimate for `num_vectors` vectors of `dim` bits
    /// and a 1000-entry codebook, in whole megabytes, is below
    /// `available_mb`.
    pub fn fits_in_ram(available_mb: usize, dim: usize, num_vectors: usize) -> (r: bool)
        requires
            dim + 7 <= usize::MAX,
            memory_estimate(dim as int, num_vectors as int, 1000).2 <= usize::MAX,
        ensures
            r == (memory_estimate(dim as int, num_vectors as int, 1000).2 / (MEGABYTE as int)
                < available_mb),
    {
        let (_, _, total) = Self::estimate_memory(dim, num_vectors, 1000);
        let total_mb = total / (1024 * 1024);
        total_mb < available_mb
    }
}

/// The bytes of a gibibyte.
pub const GIBIBYTE: u64 = 1073741824;

/// The laptop estimate's text: 100,000 vectors of 10,000 dimensions and
/// 5,000 codebook entries, in megabytes (millions of bytes, to one
/// decimal) and as a share of 64 GiB of RAM.
pub open spec fn laptop_text() -> Seq<char> {
    let (vm, oh, total) = memory_estimate(10000, 100000, 5000);
    "Laptop (64GB): "@ + decimal(100000) + " vectors @ 10k dim = "@ + tenths_text(vm as nat, 1000000)
        + "MB vectors + "@ + tenths_text(oh as nat, 1000000) + "MB overhead = "@ + tenths_text(
        total as nat,
        1000000,
    ) + "MB total. Fits: YES ("@ + tenths_text((total * 100) as nat, (64 * GIBIBYTE) as nat)
        + "% of RAM)"@
}

/// The phone estimate's text: 10,000 vectors of 10,000 dimensions and
/// 1,000 codebook entries, in megabytes, and whether the total stays under
/// 4 GiB.
pub open spec fn phone_text() -> Seq<char> {
    let (vm, oh, total) = memory_estimate(10000, 10000, 1000);
    "Phone (12GB): "@ + decimal(10000) + " vectors @ 10k dim = "@ + tenths_text(vm as nat, 1000000)
        + "MB vectors + "@ + tenths_text(oh as nat, 1000000) + "MB overhead = "@ + tenths_text(
        total as nat,
        1000000,
    ) + "MB total. Fits: "@ + (if total < 4 * GIBIBYTE { "YES"@ } else { "TIGHT"@ })
}

impl ResourceEstimator {
    /// The memory estimate for a 64 GB laptop (see `laptop_text`).
    pub fn laptop_estimate() -> (r: String)
        ensures
            r@ == laptop_text(),
    {
        let (vm, oh, total) = Self::estimate_memory(10000, 100000, 5000);
        let mut out: Vec<char> = Vec::new();
        push_str(&mut out, "Laptop (64GB): ");
        push_decimal(&mut out, 100000);
        push_str(&mut out, " vectors @ 10k dim = ");
        push_tenths(&mut out, vm as u64, 1000000);
        push_str(&mut out, "MB vectors + ");
        push_tenths(&mut out, oh as u64, 1000000);
        push_str(&mut out, "MB overhead = ");
        push_tenths(&mut out, total as u64, 1000000);
        push_str(&mut out, "MB total. Fits: YES (");
        push_tenths(&mut out, (total as u64) * 100, 64 * GIBIBYTE);
        push_str(&mut out, "% of RAM)");
        string_from(out.as_slice())
    }

    /// The memory estimate for a 12 GB phone (see `phone_text`).
    pub fn phone_estimate() -> (r: String)
        ensures
            r@ == phone_text(),
    {
        let (vm, oh, total) = Self::estimate_memory(10000, 10000, 1000);
        let mut out: Vec<char> = Vec::new();
        push_str(&mut out, "Phone (12GB): ");
        push_decimal(&mut out, 10000);
        push_str(&mut out, " vectors @ 10k dim = ");
        push_tenths(&mut out, vm as u64, 1000000);
        push_str(&mut out, "MB vectors + ");
        push_tenths(&mut out, oh as u64, 1000000);
        push_str(&mut out, "MB overhead = ");
        push_tenths(&mut out, total as u64, 1000000);
        push_str(&mut out, "MB total. Fits: ");
        if (total as u64) < 4 * GIBIBYTE {
            push_str(&mut out, "YES");
        } else {
            push_str(&mut out, "TIGHT");
        }
        string_from(out.as_slice())
    }
}

/// Hardware deployment profile: workload limits for one target.
#[derive(Debug, Clone)]
pub struct DeploymentProfile {
    pub name: String,
    pub max_vectors: usize,
    pub max_codebook: usize,
    pub max_mcts_iterations: usize,
    pub max_provenance_entries: usize,
    pub enable_stress_tests: bool,
    pub estimated_ram_mb: usize,
}

impl DeploymentProfile {
    /// Laptop profile: i7, 64 GB RAM, 3050Ti.
    pub fn laptop() -> (r: Self)
        ensures
            r.name@ == "MSI Katana i7/64GB/3050Ti"@,
            r.max_vectors == 500_000,
            r.max_codebook == 50_000,
            r.max_mcts_iterations == 1000,
            r.max_provenance_entries == 100_000,
            r.enable_stress_tests,
            r.estimated_ram_mb == 64 * 1024,
    {
        DeploymentProfile {
            name: String::from_str("MSI Katana i7/64GB/3050Ti"),
            max_vectors: 500_000,
            max_codebook: 50_000,
            max_mcts_iterations: 1000,
            max_provenance_entries: 100_000,
            enable_stress_tests: true,
            estimated_ram_mb: 64 * 1024,
        }
    }

    /// Phone profile: Tensor G5, 12-16 GB RAM.
    pub fn pixel_phone() -> (r: Self)
        ensures
            r.name@ == "Pixel 10 Pro XL / Tensor G5"@,
            r.max_vectors == 50_000,
            r.max_codebook == 5_000,
            r.max_mcts_iterations == 100,
            r.max_provenance_entries == 10_000,
            !r.enable_stress_tests,
            r.estimated_ram_mb == 12 * 1024,
    {
        DeploymentProfile {
            name: String::from_str("Pixel 10 Pro XL / Tensor G5"),
            max_vectors: 50_000,
            max_codebook: 5_000,
            max_mcts_iterations: 100,
            max_provenance_entries: 10_000,
            enable_stress_tests: false,
            estimated_ram_mb: 12 * 1024,
        }
    }

    /// Embedded profile: RP2040, 264 KB RAM (below one megabyte).
    pub fn embedded() -> (r: Self)
        ensures
            r.name@ == "RP2040 Embedded"@,
            r.max_vectors == 100,
            r.max_codebook == 50,
            r.max_mcts_iterations == 10,
            r.max_provenance_entries == 100,
            !r.enable_stress_tests,
            r.estimated_ram_mb == 0,
    {
        DeploymentProfile {
            name: String::from_str("RP2040 Embedded"),
            max_vectors: 100,
            max_codebook: 50,
            max_mcts_iterations: 10,
            max_provenance_entries: 100,
            enable_stress_tests: false,
            estimated_ram_mb: 0,
        }
    }

    /// Whether the profile's limits admit the workload.
    pub fn can_handle(&self, vectors: usize, codebook: usize) -> (r: bool)
        ensures
            r == (vectors <= self.max_vectors && codebook <= self.max_codebook),
    {
        vectors <= self.max_vectors && codebook <= self.max_codebook
    }

    /// Largest intelligence tier the hardware should run: BigBrain from
    /// 32 GB, Bridge from 4 GB, Pulse below.
    pub fn recommended_max_tier(&self) -> (r: IntelligenceTier)
        ensures
            r == (if self.estimated_ram_mb >= 32 * 1024 {
                IntelligenceTier::BigBrain
            } else if self.estimated_ram_mb >= 4 * 1024 {
                IntelligenceTier::Bridge
            } else {
                IntelligenceTier::Pulse
            }),
    {
        if self.estimated_ram_mb >= 32 * 1024 {
            IntelligenceTier::BigBrain
        } else if self.estimated_ram_mb >= 4 * 1024 {
            IntelligenceTier::Bridge
        } else {
            IntelligenceTier::Pulse
        }
    }
}

} // verus!
