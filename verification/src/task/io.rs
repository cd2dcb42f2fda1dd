//! IO budgets: expected or measured disk and network bytes of a task.

use vstd::prelude::*;

verus! {

/// Expected or actual disk and network IO of a task, in bytes.
#[derive(Debug, Clone, Copy, PartialEq, Eq, Structural, Hash)]
pub struct IoBudget {
    /// Disk bytes read.
    pub disk_read: i64,
    /// Disk bytes written.
    pub disk_write: i64,
    /// Network bytes received.
    pub net_rx: i64,
    /// Network bytes transmitted.
    pub net_tx: i64,
}

impl IoBudget {
    pub open spec fn spec_zero() -> IoBudget {
        IoBudget { disk_read: 0, disk_write: 0, net_rx: 0, net_tx: 0 }
    }

    /// The empty budget: all counts zero.
    pub fn zero() -> (b: IoBudget)
        ensures
            b == (IoBudget { disk_read: 0, disk_write: 0, net_rx: 0, net_tx: 0 }),
    {
        IoBudget { disk_read: 0, disk_write: 0, net_rx: 0, net_tx: 0 }
    }

    /// A budget with only disk IO set.
    pub fn disk(read: i64, write: i64) -> (b: IoBudget)
        ensures
            b == (IoBudget { disk_read: read, disk_write: write, net_rx: 0, net_tx: 0 }),
    {
        IoBudget { disk_read: read, disk_write: write, net_rx: 0, net_tx: 0 }
    }

    /// A budget with only network IO set.
    pub fn net(rx: i64, tx: i64) -> (b: IoBudget)
        ensures
            b == (IoBudget { disk_read: 0, disk_write: 0, net_rx: rx, net_tx: tx }),
    {
        IoBudget { disk_read: 0, disk_write: 0, net_rx: rx, net_tx: tx }
    }
}

impl Default for IoBudget {
    fn default() -> (b: IoBudget)
        ensures
            b == (IoBudget { disk_read: 0, disk_write: 0, net_rx: 0, net_tx: 0 }),
    {
        IoBudget::zero()
    }
}

/// IO metrics captured after an executor finishes.
#[derive(Debug, Clone, Copy, PartialEq, Eq, Structural)]
pub struct TaskMetrics {
    pub read_bytes: i64,
    pub write_bytes: i64,
    pub net_rx_bytes: i64,
    pub net_tx_bytes: i64,
}

} // verus!
