//! Task descriptions: what to synchronize, when, and with which scripts
//! around it. Paths travel as strings.

use vstd::prelude::*;

verus! {

/// A point in a naive calendar, counted from the epoch of the task list.
#[derive(Debug, Clone, Copy)]
pub struct TaskCron {
    pub year: u64,
    pub month: u64,
    pub day: u64,
    pub hour: u64,
    pub min: u64,
}

/// The length of a month in seconds: 31 days for the long months, 30 for
/// the short ones, and February by the leap flag.
pub fn get_month_len_as_secs(month: u64, leap: bool) -> (r: u64)
    ensures
        r == spec_month_len(month, leap),
{
    if month == 2 {
        if leap {
            2505600
        } else {
            2419200
        }
    } else if month == 4 || month == 6 || month == 9 || month == 11 {
        2592000
    } else {
        2678400
    }
}

/// The length of a month in seconds.
pub open spec fn spec_month_len(month: u64, leap: bool) -> u64 {
    if month == 2 {
        if leap {
            2505600
        } else {
            2419200
        }
    } else if month == 4 || month == 6 || month == 9 || month == 11 {
        2592000
    } else {
        2678400
    }
}

/// The length of a year in seconds, by the leap flag.
pub fn get_year_length_as_secs(leap: bool) -> (r: u64)
    ensures
        leap ==> r == 31622400,
        !leap ==> r == 31536000,
{
    if leap {
        31622400
    } else {
        31536000
    }
}

impl TaskCron {
    /// The task's moment as seconds, using the given month and year
    /// lengths.
    pub fn get_whence(&self, month_secs: u64, year_secs: u64) -> (r: u64)
        requires
            self.min * 60 + self.hour * 3600 + self.day * 86400 + self.month * month_secs
                + self.year * year_secs <= u64::MAX,
        ensures
            r == self.min * 60 + self.hour * 3600 + self.day * 86400 + self.month * month_secs
                + self.year * year_secs,
    {
        self.min * 60 + self.hour * 3600 + self.day * 86400 + self.month * month_secs + self.year
            * year_secs
    }
}

/// Return codes a custom script may exit with and still count as clean.
#[derive(Debug, Clone)]
pub struct TaskCustomOkReturnCodes(pub Vec<i64>);

/// Return codes that count as a warning.
#[derive(Debug, Clone)]
pub struct TaskCustomWarnReturnCodes(pub Vec<i64>);

/// Return codes that count as an error.
#[derive(Debug, Clone)]
pub struct TaskCustomErrorReturnCodes(pub Vec<i64>);

/// A script to run, its interpreter, and how to judge its exit code.
#[derive(Debug, Clone)]
pub struct TaskCustomScript {
    pub file: String,
    pub interpretor: Option<String>,
    pub ok_return_codes: TaskCustomOkReturnCodes,
    pub warn_return_codes: TaskCustomWarnReturnCodes,
    pub err_return_codes: TaskCustomErrorReturnCodes,
}

/// A local filesystem synchronization task.
#[derive(Debug, Clone)]
pub struct TaskFsDeltaSync {
    pub src: String,
    pub dest: String,
    pub max_threads: u64,
    pub exclude_file: String,
    pub pre_scripts: Vec<TaskCustomScript>,
    pub post_scripts: Vec<TaskCustomScript>,
    pub whence: TaskCron,
}

/// One virtual disk of a domain.
#[derive(Debug, Clone)]
pub struct TaskVirtDisk {
    pub file: String,
    pub device: String,
}

/// A local synchronization task of a virtualization domain's disks.
#[derive(Debug, Clone)]
pub struct TaskFsVirtSync {
    pub connection: String,
    pub domain: String,
    pub disks: Vec<TaskVirtDisk>,
    pub snap_name: String,
    pub snap_count: usize,
    pub src: String,
    pub dest: String,
    pub pre_scripts: Vec<TaskCustomScript>,
    pub post_scripts: Vec<TaskCustomScript>,
    pub whence: TaskCron,
}

/// A task made only of custom scripts.
#[derive(Debug, Clone)]
pub struct TaskCustomSync {
    pub pre_scripts: Vec<TaskCustomScript>,
    pub post_scripts: Vec<TaskCustomScript>,
    pub main_script: TaskCustomScript,
    pub whence: TaskCron,
}

} // verus!
