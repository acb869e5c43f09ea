//! Foundational sizing of the service, derived from the available system memory: how many
//! workers run, how many slabs each worker owns, and how a page digest selects both.
use vstd::prelude::*;
use vstd::arithmetic::power2::{is_pow2, pow2, is_pow2_equiv, lemma_pow2_strictly_increases};
use vstd::bits::{low_bits_mask, lemma_u16_low_bits_mask_is_mod};

use crate::entry::Digest;
use crate::opt::Opt;

verus! {

/// The least system memory, in KB, that the service runs with (2 GB).
pub const MIN_SYSTEM_MEMORY: u64 = 2097152;

/// Memory, in KB, kept for execution and working memory (1 GB).
pub const WORKING_MEMORY: u32 = 1048576;

/// The largest slab count: a slab id must fit into 16 bits.
pub const MAX_SLABS: u32 = 65535;

/// The largest power of two that is at most `v`, or 0 when `v` is 0.
pub open spec fn floor_pow2(v: nat) -> nat
    decreases v,
{
    if v <= 1 {
        v
    } else {
        2 * floor_pow2(v / 2)
    }
}

/// Memory, in KB, reserved for `workers` workers beside the slabs: working memory, 8 bytes of
/// channel handle per worker (at least 1 MB), 1 KB of message per worker and 64 bytes of task
/// cache per worker.
pub open spec fn reserved_memory(workers: nat) -> nat {
    let handles = if 8 * workers / 1024 > 1024 { 8 * workers / 1024 } else { 1024 };
    WORKING_MEMORY as nat + handles + workers + 64 * workers / 1024
}

/// The number of 1 MB slabs that fit into `memory` KB once `workers` workers are served.
pub open spec fn slab_total(memory: nat, workers: nat) -> nat {
    let per_mb = ((memory - reserved_memory(workers)) as nat) / 1024;
    if per_mb < MAX_SLABS as nat {
        per_mb
    } else {
        MAX_SLABS as nat
    }
}

/// The configurations that can be sized: at least one worker, a worker count whose
/// bookkeeping fits in 32 bits, memory beyond the reserved memory, and at least one slab for
/// every worker.
pub open spec fn foundation_supported(memory: u64, raw_workers: u32) -> bool {
    let workers = floor_pow2(raw_workers as nat);
    &&& 1 <= raw_workers < 0x8000_0000
    &&& 64 * workers <= u32::MAX
    &&& reserved_memory(workers) <= memory
    &&& ((memory - reserved_memory(workers)) as nat) / 1024 <= u32::MAX
    &&& workers <= slab_total(memory as nat, workers)
}

/// The 16-bit number held in the first two bytes of a digest (little-endian); it selects the
/// worker.
pub open spec fn worker_key(digest: Seq<u8>) -> u16 {
    (digest[1] as int * 256 + digest[0] as int) as u16
}

/// The 16-bit number held in the third and fourth bytes of a digest (little-endian); it
/// selects the slab.
pub open spec fn slab_key(digest: Seq<u8>) -> u16 {
    (digest[3] as int * 256 + digest[2] as int) as u16
}

/// Why a foundation cannot be laid.
#[derive(Debug, PartialEq, Eq, Structural)]
pub enum FoundationError {
    /// The system has less than `MIN_SYSTEM_MEMORY` KB.
    InsufficientMemory,
}

/// The sizing of the service.
#[derive(Debug)]
pub struct Foundation {
    worker_count: u32,
    bitwise_worker_match: u16,
    slabs_per_worker: u32,
    bitwise_slab_match: u16,
    spare_count: u64,
    spare_slabs: Vec<u64>,
}

impl Foundation {
    /// The number of workers.
    pub closed spec fn workers(self) -> u32 {
        self.worker_count
    }

    /// The mask that selects a worker id from a worker key.
    pub closed spec fn worker_mask(self) -> u16 {
        self.bitwise_worker_match
    }

    /// The number of slabs that each worker owns.
    pub closed spec fn slabs_each(self) -> u32 {
        self.slabs_per_worker
    }

    /// The mask that selects a slab id from a slab key.
    pub closed spec fn slab_mask(self) -> u16 {
        self.bitwise_slab_match
    }

    /// The number of unallocated spare slabs.
    pub closed spec fn spares(self) -> u64 {
        self.spare_count
    }

    /// The spare slabs that have been handed out.
    pub closed spec fn spare_list(self) -> Seq<u64> {
        self.spare_slabs@
    }

    /// The worker count and the slabs per worker are powers of two, each mask is its count
    /// less one, and all the slabs of all the workers have ids that fit into 16 bits.
    pub open spec fn wf(self) -> bool {
        &&& is_pow2(self.workers() as int)
        &&& is_pow2(self.slabs_each() as int)
        &&& self.worker_mask() == self.workers() - 1
        &&& self.slab_mask() == self.slabs_each() - 1
        &&& self.workers() * self.slabs_each() <= MAX_SLABS
    }

    /// Sizes the service from the memory and cores of the machine, `total_memory` KB and
    /// `physical_cores`, as the options may override them.
    pub fn new(opt: &Opt, total_memory: u64, physical_cores: Option<usize>) -> (result: Result<
        Foundation,
        FoundationError,
    >)
        requires
            opt.cores is Some || physical_cores is Some,
            opt.workers is None ==> cores_chosen(opt, physical_cores) <= usize::MAX / 2,
            memory_chosen(opt, total_memory) >= MIN_SYSTEM_MEMORY ==> foundation_supported(
                memory_chosen(opt, total_memory),
                workers_requested(opt, physical_cores),
            ),
        ensures
            sized_as(result, memory_chosen(opt, total_memory), workers_requested(opt, physical_cores)),
    {
        let memory = system_memory(opt, total_memory);
        let cores = system_cores(opt, physical_cores);
        let raw = raw_workers(opt, physical_cores);
        get_foundation_for(memory, cores, raw)
    }

    pub fn get_bitwise_worker_match(&self) -> (mask: u16)
        ensures
            mask == self.worker_mask(),
    {
        self.bitwise_worker_match
    }

    pub fn get_worker_count(&self) -> (count: u32)
        ensures
            count == self.workers(),
    {
        self.worker_count
    }

    pub fn get_bitwise_slab_match(&self) -> (mask: u16)
        ensures
            mask == self.slab_mask(),
    {
        self.bitwise_slab_match
    }

    pub fn get_slabs_per_worker(&self) -> (count: u32)
        ensures
            count == self.slabs_each(),
    {
        self.slabs_per_worker
    }

    /// Returns the number of unallocated spare slabs.
    pub fn get_spare_count(&self) -> (count: u64)
        ensures
            count == self.spares(),
    {
        self.spare_count
    }

    /// The spare slabs handed out so far.
    pub fn get_spare_slabs(&self) -> (slabs: &[u64])
        ensures
            slabs@ == self.spare_list(),
    {
        self.spare_slabs.as_slice()
    }

    /// Allocates a spare slab from the pool of spare slabs. Allocation is not supported yet,
    /// so no slab is ever handed out.
    pub fn get_spare_slab(&self) -> (slab: Option<bool>)
        ensures
            slab is None,
    {
        None
    }

    /// The id of the worker that owns the page with `digest`: the worker key masked by the
    /// worker mask.
    pub fn extract_worker_id_from(&self, digest: Digest) -> (id: u16)
        ensures
            id == worker_key(digest@) & self.worker_mask(),
            id == ((digest@[1] as int * 256 + digest@[0] as int) as u16) & self.worker_mask(),
            self.wf() ==> id as int == (digest@[1] as int * 256 + digest@[0] as int) % (
            self.workers() as int),
    {
        let id = key_from(digest[1], digest[0]);
        proof {
            if self.wf() {
                lemma_worker_id_of_bytes(*self, digest);
            }
        }
        id & self.bitwise_worker_match
    }

    /// The id of the slab, within its worker, that holds the page with `digest`: the slab key
    /// masked by the slab mask.
    pub fn extract_slab_id_from(&self, digest: Digest) -> (id: u16)
        ensures
            id == slab_key(digest@) & self.slab_mask(),
            id == ((digest@[3] as int * 256 + digest@[2] as int) as u16) & self.slab_mask(),
            self.wf() ==> id as int == (digest@[3] as int * 256 + digest@[2] as int) % (
            self.slabs_each() as int),
    {
        let id = key_from(digest[3], digest[2]);
        proof {
            if self.wf() {
                lemma_slab_id_of_bytes(*self, digest);
            }
        }
        id & self.bitwise_slab_match
    }
}

/// The 16-bit number whose high byte is `high` and whose low byte is `low`.
fn key_from(high: u8, low: u8) -> (key: u16)
    ensures
        key == high as int * 256 + low as int,
{
    let mut id: u16 = high as u16;
    assert((id << 8u16) == id * 256) by (bit_vector)
        requires
            id < 256,
    ;
    id = id << 8;
    id = id + low as u16;
    id
}

/// `result` is what sizing gives for `memory` KB and `raw_workers` requested workers: an
/// error below the least system memory, else the foundation laid for them.
pub open spec fn sized_as(
    result: Result<Foundation, FoundationError>,
    memory: u64,
    raw_workers: u32,
) -> bool {
    if memory < MIN_SYSTEM_MEMORY {
        result == Err::<Foundation, FoundationError>(FoundationError::InsufficientMemory)
    } else {
        result matches Ok(f) && laid_for(f, memory, raw_workers)
    }
}

/// `f` is the foundation laid for `memory` KB and `raw_workers` requested workers: the
/// requested workers rounded down to a power of two, the slabs shared among them as the
/// largest equal power of two, and every slab left over counted as two spare half slabs.
pub open spec fn laid_for(f: Foundation, memory: u64, raw_workers: u32) -> bool {
    let workers = floor_pow2(raw_workers as nat);
    let slabs = slab_total(memory as nat, workers);
    let each = floor_pow2(slabs / workers);
    &&& f.workers() == workers
    &&& f.slabs_each() == each
    &&& f.worker_mask() == workers - 1
    &&& f.slab_mask() == each - 1
    &&& f.spares() == 2 * (slabs - workers * each)
    &&& f.spare_list() == Seq::<u64>::empty()
    &&& f.wf()
}

/// The memory to size for, in KB: the memory option where it is given, else the memory of
/// the machine.
pub open spec fn memory_chosen(opt: &Opt, total_memory: u64) -> u64 {
    match opt.memory {
        Some(memory) => memory,
        None => total_memory,
    }
}

/// The number of cores to size for: the cores option where it is given, else the physical
/// cores of the machine.
pub open spec fn cores_chosen(opt: &Opt, physical_cores: Option<usize>) -> usize {
    match opt.cores {
        Some(cores) => cores as usize,
        None => physical_cores->0,
    }
}

/// The number of workers requested: the workers option where it is given, else twice the
/// cores, at most 65535.
pub open spec fn workers_requested(opt: &Opt, physical_cores: Option<usize>) -> u32 {
    match opt.workers {
        Some(workers) => workers as u32,
        None => {
            let doubled = cores_chosen(opt, physical_cores) * 2;
            if doubled < 65535 {
                doubled as u32
            } else {
                65535
            }
        },
    }
}

/// The system memory in KB: the memory option where it is given, else `total_memory`, the
/// memory of the machine.
pub fn system_memory(opt: &Opt, total_memory: u64) -> (memory: u64)
    ensures
        memory == memory_chosen(opt, total_memory),
{
    match opt.get_memory() {
        Some(memory) => *memory,
        None => total_memory,
    }
}

/// The number of cores: the cores option where it is given, else `physical_cores`, the
/// physical cores of the machine.
pub fn system_cores(opt: &Opt, physical_cores: Option<usize>) -> (cores: usize)
    requires
        opt.cores is Some || physical_cores is Some,
    ensures
        cores == cores_chosen(opt, physical_cores),
{
    match opt.get_cores() {
        Some(cores) => *cores as usize,
        None => physical_cores.unwrap(),
    }
}

/// The number of workers requested: the workers option where it is given, else twice the
/// cores (to allow for hyperthreading), at most 65535 so that a worker id fits into 16 bits.
pub fn raw_workers(opt: &Opt, physical_cores: Option<usize>) -> (workers: u32)
    requires
        opt.workers is Some || opt.cores is Some || physical_cores is Some,
        opt.workers is None ==> cores_chosen(opt, physical_cores) <= usize::MAX / 2,
    ensures
        workers == workers_requested(opt, physical_cores),
        opt.workers matches Some(w) ==> workers == w as u32,
        opt.workers is None ==> workers as int == {
            let cores = match opt.cores {
                Some(c) => (c as usize) as int,
                None => physical_cores->0 as int,
            };
            if 2 * cores < 65535 {
                2 * cores
            } else {
                65535
            }
        },
{
    match opt.get_worker_count() {
        Some(workers) => workers as u32,
        None => {
            let doubled = system_cores(opt, physical_cores) * 2;
            if doubled < 65535 {
                doubled as u32
            } else {
                65535
            }
        },
    }
}

/// Whether `get_foundation_for` can size `memory` KB for `raw_workers` requested workers.
pub fn is_supported_configuration(memory: u64, raw_workers: u32) -> (supported: bool)
    ensures
        supported == foundation_supported(memory, raw_workers),
{
    if raw_workers < 1 || raw_workers >= 0x8000_0000 {
        return false;
    }
    let workers = round_down_to_power_of_2(raw_workers);
    if workers > u32::MAX / 64 {
        return false;
    }
    let handles: u32 = if 8 * workers / 1024 > 1024 { 8 * workers / 1024 } else { 1024 };
    let reserved: u64 = (WORKING_MEMORY + handles + workers + 64 * workers / 1024) as u64;
    if memory < reserved {
        return false;
    }
    let per_mb = (memory - reserved) / 1024;
    if per_mb > u32::MAX as u64 {
        return false;
    }
    let slabs: u32 = if per_mb < MAX_SLABS as u64 { per_mb as u32 } else { MAX_SLABS };
    workers <= slabs
}

/// Sizes the service for `system_memory` KB and `raw_workers` requested workers (`cores` is
/// not consulted). Below 2 GB of memory there is no foundation. Otherwise the workers are the
/// requested workers rounded down to a power of two; the memory beyond the reserved memory
/// is cut into 1 MB slabs (at most 65535); each worker gets the largest power of two of slabs
/// that all workers can share; every slab left over counts as two spare half slabs.
#[allow(unused_variables)]
pub fn get_foundation_for(system_memory: u64, cores: usize, raw_workers: u32) -> (result: Result<
    Foundation,
    FoundationError,
>)
    requires
        system_memory >= MIN_SYSTEM_MEMORY ==> foundation_supported(system_memory, raw_workers),
    ensures
        sized_as(result, system_memory, raw_workers),
{
    if system_memory < MIN_SYSTEM_MEMORY {
        return Err(FoundationError::InsufficientMemory);
    }
    let worker_count = round_down_to_power_of_2(raw_workers);
    let tx_handle_count: u32 = if 8 * worker_count / 1024 > 1024 {
        8 * worker_count / 1024
    } else {
        1024
    };
    let working_memory: u32 = WORKING_MEMORY;
    let message_size: u32 = worker_count;
    let tokio_task_cache: u32 = 64 * worker_count / 1024;
    let reserved_memory: u64 = (working_memory + tx_handle_count + message_size
        + tokio_task_cache) as u64;
    let memory_for_slabs = system_memory - reserved_memory;
    let per_mb = memory_for_slabs / 1024;
    let slabs: u32 = if per_mb < MAX_SLABS as u64 { per_mb as u32 } else { MAX_SLABS };
    assert(reserved_memory as nat == self::reserved_memory(worker_count as nat));
    assert(slabs as nat == slab_total(system_memory as nat, worker_count as nat));
    assert(slabs / worker_count >= 1) by (nonlinear_arith)
        requires
            slabs >= worker_count,
            worker_count >= 1,
    ;
    let slabs_per_worker = round_down_to_power_of_2(slabs / worker_count);
    proof {
        lemma_floor_pow2_bounds(raw_workers as nat);
        lemma_floor_pow2_bounds((slabs / worker_count) as nat);
        lemma_share_fits(slabs as nat, worker_count as nat, slabs_per_worker as nat);
    }
    let spare_count: u64 = ((slabs - worker_count * slabs_per_worker) * 2) as u64;
    let spare_slabs: Vec<u64> = Vec::new();
    Ok(
        Foundation {
            worker_count,
            slabs_per_worker,
            spare_count,
            spare_slabs,
            bitwise_worker_match: (worker_count - 1) as u16,
            bitwise_slab_match: (slabs_per_worker - 1) as u16,
        },
    )
}

/// Sharing `each <= slabs / workers` slabs among `workers` workers takes at most `slabs`.
proof fn lemma_share_fits(slabs: nat, workers: nat, each: nat)
    requires
        workers >= 1,
        each <= slabs / workers,
    ensures
        workers * each <= slabs,
{
    assert(workers * each <= workers * (slabs / workers)) by (nonlinear_arith)
        requires
            each <= slabs / workers,
            workers >= 1,
    ;
    assert(workers * (slabs / workers) <= slabs) by (nonlinear_arith)
        requires
            workers >= 1,
    ;
}

/// Rounds `value` down to a power of two: the largest power of two that is at most `value`,
/// or 0 for 0.
pub fn round_down_to_power_of_2(value: u32) -> (power: u32)
    requires
        value < 0x8000_0000,
    ensures
        power == floor_pow2(value as nat),
        value == 0 ==> power == 0,
        value >= 1 ==> is_pow2(power as int) && power <= value < 2 * power,
{
    let mut power: u32 = 1;
    proof {
        reveal(is_pow2);
    }
    while power <= value
        invariant
            value < 0x8000_0000,
            1 <= power,
            is_pow2(power as int),
            power / 2 <= value,
        decreases 2 * value + 2 - power,
    {
        proof {
            reveal(is_pow2);
            assert(is_pow2((power * 2) as int)) by {
                assert((power * 2) as int / 2 == power as int);
            }
        }
        power = power * 2;
    }
    proof {
        lemma_floor_pow2_bounds(value as nat);
        if value >= 1 {
            lemma_pow2_halves(power as nat);
            lemma_floor_pow2_unique(value as nat, (power / 2) as nat);
        }
    }
    power / 2
}

/// A power of two above 1 is even, and its half is a power of two.
proof fn lemma_pow2_halves(p: nat)
    requires
        is_pow2(p as int),
        p >= 2,
    ensures
        p % 2 == 0,
        is_pow2((p / 2) as int),
{
    reveal(is_pow2);
}

/// Masking with a power of two less one keeps a key below that power of two: it is the key
/// modulo the power.
proof fn lemma_mask_is_mod(key: u16, count: u32, mask: u16)
    requires
        is_pow2(count as int),
        count <= MAX_SLABS,
        mask == count - 1,
    ensures
        key & mask == key % (count as u16),
        (key & mask) < count,
{
    broadcast use is_pow2_equiv;
    vstd::arithmetic::power2::lemma2_to64();
    let n = choose|i: nat| vstd::arithmetic::power::pow(2, i) == count as int;
    assert(pow2(n) == count);
    if n >= 16 {
        if n > 16 {
            lemma_pow2_strictly_increases(16, n);
        }
        assert(false);
    }
    assert(low_bits_mask(n) == mask);
    lemma_u16_low_bits_mask_is_mod(key, n);
}

/// Every digest selects one of the workers: the worker id is the worker key modulo the
/// worker count, an index into the workers.
pub proof fn lemma_worker_id_in_range(foundation: Foundation, digest: Digest)
    requires
        foundation.wf(),
    ensures
        worker_key(digest@) & foundation.worker_mask() == worker_key(digest@) % (
        foundation.workers() as u16),
        (worker_key(digest@) & foundation.worker_mask()) < foundation.workers(),
{
    lemma_pow2_at_least_one(foundation.slabs_each());
    assert(foundation.workers() <= MAX_SLABS) by (nonlinear_arith)
        requires
            foundation.workers() * foundation.slabs_each() <= MAX_SLABS,
            foundation.slabs_each() >= 1,
    ;
    lemma_mask_is_mod(worker_key(digest@), foundation.workers(), foundation.worker_mask());
}

/// Every digest selects one of the slabs of its worker: the slab id is the slab key modulo
/// the slabs per worker, an index into the worker's slabs.
pub proof fn lemma_slab_id_in_range(foundation: Foundation, digest: Digest)
    requires
        foundation.wf(),
    ensures
        slab_key(digest@) & foundation.slab_mask() == slab_key(digest@) % (
        foundation.slabs_each() as u16),
        (slab_key(digest@) & foundation.slab_mask()) < foundation.slabs_each(),
{
    lemma_pow2_at_least_one(foundation.workers());
    assert(foundation.slabs_each() <= MAX_SLABS) by (nonlinear_arith)
        requires
            foundation.workers() * foundation.slabs_each() <= MAX_SLABS,
            foundation.workers() >= 1,
    ;
    lemma_mask_is_mod(slab_key(digest@), foundation.slabs_each(), foundation.slab_mask());
}

/// Every slab is either shared among the workers or counted as two spare half slabs, and the
/// share of each worker is the largest power of two that fits: twice as many slabs per
/// worker would not fit.
pub proof fn lemma_slabs_accounted(foundation: Foundation, memory: u64, raw_workers: u32)
    requires
        laid_for(foundation, memory, raw_workers),
    ensures
        foundation.workers() * foundation.slabs_each() + foundation.spares() / 2 == slab_total(
            memory as nat,
            foundation.workers() as nat,
        ),
        slab_total(memory as nat, foundation.workers() as nat) < foundation.workers() * (2
            * foundation.slabs_each()),
{
    let workers = foundation.workers() as nat;
    let each = foundation.slabs_each() as nat;
    let slabs = slab_total(memory as nat, workers);
    lemma_pow2_at_least_one(foundation.workers());
    lemma_floor_pow2_bounds(slabs / workers);
    lemma_share_fits(slabs, workers, each);
    assert(slabs < workers * (2 * each)) by (nonlinear_arith)
        requires
            workers >= 1,
            slabs / workers < 2 * each,
    ;
}

/// The worker of a digest is the little-endian number of its first two bytes modulo the
/// worker count: both bytes count, so every worker is reachable.
pub proof fn lemma_worker_id_of_bytes(foundation: Foundation, digest: Digest)
    requires
        foundation.wf(),
    ensures
        (worker_key(digest@) & foundation.worker_mask()) as int == (digest@[1] as int * 256
            + digest@[0] as int) % (foundation.workers() as int),
        (digest@[1] as int * 256 + digest@[0] as int) % (foundation.workers() as int)
            < foundation.workers(),
{
    lemma_worker_id_in_range(foundation, digest);
    lemma_pow2_at_least_one(foundation.slabs_each());
    lemma_pow2_at_least_one(foundation.workers());
    assert(foundation.workers() <= MAX_SLABS) by (nonlinear_arith)
        requires
            foundation.workers() * foundation.slabs_each() <= MAX_SLABS,
            foundation.slabs_each() >= 1,
    ;
    let key = worker_key(digest@);
    let count = foundation.workers() as u16;
    assert(count as int == foundation.workers() as int);
    assert(key as int == digest@[1] as int * 256 + digest@[0] as int);
    assert((key % count) as int == (key as int) % (count as int));
}

/// The slab of a digest is the little-endian number of its third and fourth bytes modulo
/// the slabs per worker: both bytes count, so every slab of a worker is reachable.
pub proof fn lemma_slab_id_of_bytes(foundation: Foundation, digest: Digest)
    requires
        foundation.wf(),
    ensures
        (slab_key(digest@) & foundation.slab_mask()) as int == (digest@[3] as int * 256
            + digest@[2] as int) % (foundation.slabs_each() as int),
        (digest@[3] as int * 256 + digest@[2] as int) % (foundation.slabs_each() as int)
            < foundation.slabs_each(),
{
    lemma_slab_id_in_range(foundation, digest);
    lemma_pow2_at_least_one(foundation.slabs_each());
    lemma_pow2_at_least_one(foundation.workers());
    assert(foundation.slabs_each() <= MAX_SLABS) by (nonlinear_arith)
        requires
            foundation.workers() * foundation.slabs_each() <= MAX_SLABS,
            foundation.workers() >= 1,
    ;
    let key = slab_key(digest@);
    let count = foundation.slabs_each() as u16;
    assert(count as int == foundation.slabs_each() as int);
    assert(key as int == digest@[3] as int * 256 + digest@[2] as int);
    assert((key % count) as int == (key as int) % (count as int));
}

/// Every slab of a worker is selected by some digest: for each index below the slabs per
/// worker, a digest whose third and fourth bytes spell it selects it.
pub proof fn lemma_every_slab_reachable(foundation: Foundation, slab: nat, digest: Digest)
    requires
        foundation.wf(),
        slab < foundation.slabs_each(),
        digest@[2] as int == slab % 256,
        digest@[3] as int == slab / 256,
    ensures
        (slab_key(digest@) & foundation.slab_mask()) as int == slab,
{
    lemma_slab_id_of_bytes(foundation, digest);
    lemma_pow2_at_least_one(foundation.workers());
    assert(foundation.slabs_each() <= MAX_SLABS) by (nonlinear_arith)
        requires
            foundation.workers() * foundation.slabs_each() <= MAX_SLABS,
            foundation.workers() >= 1,
    ;
    assert(digest@[3] as int * 256 + digest@[2] as int == slab);
    assert((slab as int) % (foundation.slabs_each() as int) == slab) by (nonlinear_arith)
        requires
            slab < foundation.slabs_each(),
    ;
}

/// Every worker is selected by some digest: for each index below the worker count, a
/// digest whose first two bytes spell it selects it.
pub proof fn lemma_every_worker_reachable(foundation: Foundation, worker: nat, digest: Digest)
    requires
        foundation.wf(),
        worker < foundation.workers(),
        digest@[0] as int == worker % 256,
        digest@[1] as int == worker / 256,
    ensures
        (worker_key(digest@) & foundation.worker_mask()) as int == worker,
{
    lemma_worker_id_of_bytes(foundation, digest);
    assert(digest@[1] as int * 256 + digest@[0] as int == worker);
    assert((worker as int) % (foundation.workers() as int) == worker) by (nonlinear_arith)
        requires
            worker < foundation.workers(),
    ;
}

/// The number of workers requested, stated on the options and the machine: the workers
/// option where it is given, else twice the cores (the cores option where it is given, else
/// the physical cores), at most 65535.
pub proof fn lemma_workers_requested(opt: &Opt, physical_cores: Option<usize>)
    ensures
        opt.workers matches Some(w) ==> workers_requested(opt, physical_cores) == w as u32,
        opt.workers is None ==> workers_requested(opt, physical_cores) as int == {
            let cores = match opt.cores {
                Some(c) => (c as usize) as int,
                None => physical_cores->0 as int,
            };
            if 2 * cores < 65535 {
                (2 * cores) as u32 as int
            } else {
                65535
            }
        },
{
}

/// A power of two is at least one.
proof fn lemma_pow2_at_least_one(p: u32)
    requires
        is_pow2(p as int),
    ensures
        p >= 1,
{
    reveal(is_pow2);
}

/// `floor_pow2(v)` is a power of two at most `v` and more than half of `v`.
pub proof fn lemma_floor_pow2_bounds(v: nat)
    ensures
        v == 0 ==> floor_pow2(v) == 0,
        v >= 1 ==> is_pow2(floor_pow2(v) as int) && floor_pow2(v) <= v < 2 * floor_pow2(v),
    decreases v,
{
    reveal(is_pow2);
    if v >= 2 {
        lemma_floor_pow2_bounds(v / 2);
        let h = floor_pow2(v / 2);
        assert((2 * h) as int / 2 == h as int);
        assert(is_pow2((2 * h) as int));
    }
}

/// The only power of two `p` with `p <= v < 2 * p` is `floor_pow2(v)`.
pub proof fn lemma_floor_pow2_unique(v: nat, p: nat)
    requires
        is_pow2(p as int),
        p <= v < 2 * p,
    ensures
        floor_pow2(v) == p,
    decreases v,
{
    reveal(is_pow2);
    if p != 1 {
        lemma_pow2_halves(p);
        lemma_floor_pow2_unique(v / 2, p / 2);
    }
}

} // verus!
