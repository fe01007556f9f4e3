//! One measurement, and the suite of them: an algorithm is run on a dataset
//! between two memory samples and under a timer, and the figures are kept in a
//! record; the suite runs each algorithm on each dataset, in a fixed order.

use crate::memory::{measure_memory, memory_in_use};
use crate::sorting::{bubble_sort, insertion_sort};
use std::time::{Duration, Instant};
use vstd::prelude::*;
use vstd::string::*;

verus! {

/// A point in time of std's monotonic clock. Opaque here: it is only handed
/// back to the clock to learn how much time has passed.
#[verifier::external_type_specification]
#[verifier::external_body]
pub struct ExInstant(std::time::Instant);

/// `Instant::now` reads the clock. Nothing is claimed of the reading.
pub assume_specification[ std::time::Instant::now ]() -> std::time::Instant
;

/// `Instant::elapsed` gives the time that has passed since the instant was
/// read. Nothing is claimed of the amount.
pub assume_specification[ std::time::Instant::elapsed ](
    start: &std::time::Instant,
) -> std::time::Duration
;

/// `std::hint::black_box` hands its argument back as it is; it only keeps the
/// compiler from discarding the work that made the value.
pub assume_specification<T>[ std::hint::black_box::<T> ](dummy: T) -> (same: T)
    ensures
        same == dummy,
;

/// The figures of one run of one algorithm on one dataset. Memory is in bytes,
/// as sampled on the whole system; the amount used is the second sample less
/// the first, and is negative where the system's use fell during the run.
/// A record is made once and only read afterwards.
#[derive(Debug)]
pub struct BenchmarkResult {
    algorithm: String,
    data_size: usize,
    execution_time: Duration,
    memory_used: i128,
    initial_memory: u64,
    final_memory: u64,
}

/// What a record holds, as plain values.
pub struct BenchmarkFigures {
    pub algorithm: Seq<char>,
    pub data_size: nat,
    pub execution_time: Duration,
    pub memory_used: int,
    pub initial_memory: nat,
    pub final_memory: nat,
}

impl View for BenchmarkResult {
    type V = BenchmarkFigures;

    closed spec fn view(&self) -> BenchmarkFigures {
        BenchmarkFigures {
            algorithm: self.algorithm@,
            data_size: self.data_size as nat,
            execution_time: self.execution_time,
            memory_used: self.memory_used as int,
            initial_memory: self.initial_memory as nat,
            final_memory: self.final_memory as nat,
        }
    }
}

impl BenchmarkFigures {
    /// The memory used is the final sample less the initial one.
    pub open spec fn is_consistent(self) -> bool {
        self.memory_used == self.final_memory - self.initial_memory
    }

    /// The figures of a run of the algorithm `name` on `size` elements.
    pub open spec fn is_record_of(self, name: Seq<char>, size: nat) -> bool {
        &&& self.algorithm == name
        &&& self.data_size == size
        &&& self.is_consistent()
    }
}

impl BenchmarkResult {
    #[verifier::type_invariant]
    spec fn memory_used_is_difference(self) -> bool {
        self.memory_used == self.final_memory - self.initial_memory
    }

    /// Puts the figures of one run into a record, and works out the memory
    /// used from the two samples.
    pub fn new(
        algorithm_name: &str,
        data_size: usize,
        execution_time: Duration,
        initial_memory: u64,
        final_memory: u64,
    ) -> (record: BenchmarkResult)
        ensures
            record@ == (BenchmarkFigures {
                algorithm: algorithm_name@,
                data_size: data_size as nat,
                execution_time,
                memory_used: final_memory - initial_memory,
                initial_memory: initial_memory as nat,
                final_memory: final_memory as nat,
            }),
    {
        BenchmarkResult {
            algorithm: String::from_str(algorithm_name),
            data_size,
            execution_time,
            memory_used: final_memory as i128 - initial_memory as i128,
            initial_memory,
            final_memory,
        }
    }

    /// The name under which the algorithm was run.
    pub fn algorithm(&self) -> (name: &str)
        ensures
            name@ == self@.algorithm,
    {
        self.algorithm.as_str()
    }

    /// The number of elements of the dataset.
    pub fn data_size(&self) -> (size: usize)
        ensures
            size == self@.data_size,
    {
        self.data_size
    }

    /// The time that the algorithm took.
    pub fn execution_time(&self) -> (time: Duration)
        ensures
            time == self@.execution_time,
    {
        self.execution_time
    }

    /// The memory in use before the run, in bytes.
    pub fn initial_memory(&self) -> (bytes: u64)
        ensures
            bytes == self@.initial_memory,
    {
        self.initial_memory
    }

    /// The memory in use after the run, in bytes.
    pub fn final_memory(&self) -> (bytes: u64)
        ensures
            bytes == self@.final_memory,
    {
        self.final_memory
    }

    /// The memory used during the run, in bytes: in every record, the final
    /// sample less the initial one.
    pub fn memory_used(&self) -> (bytes: i128)
        ensures
            bytes == self@.memory_used,
            bytes == self@.final_memory - self@.initial_memory,
            self@.is_consistent(),
    {
        proof {
            use_type_invariant(self);
        }
        self.memory_used
    }
}

/// Measures one run: samples memory, starts the timer, runs `algorithm` on
/// `data`, stops the timer, samples memory again, and records the figures
/// under `algorithm_name`. The samples and the time are the machine's; the
/// name, the size and the record's invariant are fixed by the arguments, and
/// the final sample is the memory in use according to the sampler as the call
/// leaves it.
pub fn benchmark_sorting_algorithm<F>(
    algorithm: F,
    data: &[i32],
    algorithm_name: &str,
    system: &mut sysinfo::System,
) -> (record: BenchmarkResult) where F: Fn(&[i32]) -> Vec<i32>
    requires
        call_requires(algorithm, (data,)),
    ensures
        record@.is_record_of(algorithm_name@, data@.len()),
        record@.final_memory == memory_in_use(*final(system)),
{
    let initial_memory = measure_memory(system);
    let start = Instant::now();

    let sorted_data = algorithm(data);

    let duration = start.elapsed();
    let final_memory = measure_memory(system);

    std::hint::black_box(sorted_data);

    BenchmarkResult::new(algorithm_name, data.len(), duration, initial_memory, final_memory)
}

/// The sizes of the datasets that the suite is run on, in the suite's order.
pub fn suite_sizes() -> (sizes: Vec<usize>)
    ensures
        sizes@ == seq![1000usize, 5000usize, 10000usize],
{
    let sizes: Vec<usize> = vec![1000, 5000, 10000];
    assert(sizes@ =~= seq![1000usize, 5000usize, 10000usize]);
    sizes
}

/// `results` is what the suite records for `datasets`: for each dataset in
/// order, the record of insertion sort and then that of bubble sort, each with
/// the dataset's length as its size.
pub open spec fn is_suite_of(results: Seq<BenchmarkResult>, datasets: Seq<Vec<i32>>) -> bool {
    &&& results.len() == 2 * datasets.len()
    &&& forall|i: int|
        0 <= i < datasets.len() ==> {
            &&& results[2 * i]@.is_record_of("Insertion Sort"@, (#[trigger] datasets[i])@.len())
            &&& results[2 * i + 1]@.is_record_of("Bubble Sort"@, datasets[i]@.len())
        }
}

/// Runs the suite: every dataset in order, and on each insertion sort, then
/// bubble sort, all against the one memory sampler `system`. The records come
/// back in the order of the runs; the final sample of the last of them is the
/// memory in use according to the sampler as the suite leaves it.
pub fn run_benchmarks(
    datasets: &[Vec<i32>],
    system: &mut sysinfo::System,
) -> (results: Vec<BenchmarkResult>)
    ensures
        is_suite_of(results@, datasets@),
        datasets@.len() == 0 ==> *final(system) == *old(system),
        datasets@.len() > 0 ==> results@.last()@.final_memory == memory_in_use(*final(system)),
{
    let mut results: Vec<BenchmarkResult> = Vec::new();

    let mut k: usize = 0;
    while k < datasets.len()
        invariant
            k <= datasets@.len(),
            is_suite_of(results@, datasets@.subrange(0, k as int)),
            k == 0 ==> *system == *old(system),
            k > 0 ==> results@.last()@.final_memory == memory_in_use(*system),
        decreases datasets@.len() - k,
    {
        let ghost before = results@;
        let test_data = datasets[k].as_slice();

        let by_insertion = benchmark_sorting_algorithm(
            insertion_sort,
            test_data,
            "Insertion Sort",
            system,
        );
        results.push(by_insertion);
        let by_bubble = benchmark_sorting_algorithm(
            bubble_sort,
            test_data,
            "Bubble Sort",
            system,
        );
        results.push(by_bubble);

        proof {
            let done = datasets@.subrange(0, k as int);
            let next = datasets@.subrange(0, k as int + 1);
            assert forall|i: int| 0 <= i < next.len() implies {
                &&& results@[2 * i]@.is_record_of("Insertion Sort"@, (#[trigger] next[i])@.len())
                &&& results@[2 * i + 1]@.is_record_of("Bubble Sort"@, next[i]@.len())
            } by {
                if i < k {
                    assert(done[i] == next[i]);
                    assert(results@[2 * i] == before[2 * i]);
                    assert(results@[2 * i + 1] == before[2 * i + 1]);
                }
            }
        }
        k += 1;
    }
    assert(datasets@.subrange(0, k as int) =~= datasets@);
    results
}

} // verus!
