//! Kinds of measurement logs and of storage tests, and the charts drawn
//! from one test.

use vstd::prelude::*;

verus! {

/// What a log measures.
#[derive(Clone, Copy, Debug, PartialEq, Eq, Structural)]
pub enum DataType {
    /// Nanoseconds per operation.
    Latency,
    /// KiB per second.
    Throughput,
    /// Operations per second.
    IOPS,
}

/// The access pattern of a storage test.
#[derive(Clone, Copy, Debug, PartialEq, Eq, Structural)]
pub enum TestType {
    SequentialRead,
    SequentialWrite,
    RealWorld,
}

/// The four charts of one storage test, each as a JSON text.
#[derive(Debug, PartialEq, Eq)]
pub struct MetricDataJson {
    pub bw: String,
    pub iops: String,
    pub lat: String,
    pub clat: String,
}

/// The number by which a logged value is divided before it is drawn:
/// latencies go from nanoseconds to milliseconds, throughput from KiB to
/// MiB per second, and operation counts stay.
pub fn unit_divisor(data_type: DataType) -> (d: u64)
    ensures
        d == match data_type {
            DataType::Latency => 1_000_000u64,
            DataType::Throughput => 1024u64,
            DataType::IOPS => 1u64,
        },
{
    match data_type {
        DataType::Latency => 1_000_000,
        DataType::Throughput => 1024,
        DataType::IOPS => 1,
    }
}

/// The directory that holds the logs of a test of this type.
pub fn test_dir(test_type: TestType) -> (name: &'static str)
    ensures
        name@ == match test_type {
            TestType::SequentialRead => "seq_read"@,
            TestType::SequentialWrite => "seq_write"@,
            TestType::RealWorld => "real_world"@,
        },
{
    match test_type {
        TestType::SequentialRead => "seq_read",
        TestType::SequentialWrite => "seq_write",
        TestType::RealWorld => "real_world",
    }
}

} // verus!
