//! Action-log records. The engine only builds the log lines; the host
//! appends them to the log file and supplies the timestamps, since file
//! I/O and clocks live outside the library.
use vstd::prelude::*;
use vstd::string::StringExecFns;
use crate::text::dec_digits;
use crate::text::u64_to_string;

verus! {

/// Identifies the log file that action records are appended to.
pub struct ActionLogger {
    log_file_path: String,
}

impl View for ActionLogger {
    type V = Seq<char>;

    /// A logger is identified by the path of its log file.
    closed spec fn view(&self) -> Seq<char> {
        self.log_file_path@
    }
}

impl Clone for ActionLogger {
    fn clone(&self) -> (r: Self)
        ensures
            r@ == self@,
    {
        ActionLogger { log_file_path: self.log_file_path.clone() }
    }
}

/// The record of one action attempt.
pub open spec fn action_line_view(
    timestamp: Seq<char>,
    action: Seq<char>,
    entry_name: Seq<char>,
    success: bool,
    error: Option<Seq<char>>,
) -> Seq<char> {
    "["@ + timestamp + "] "@ + action + " - Entry: '"@ + entry_name + "' - Status: "@ + (if success {
        "SUCCESS"@
    } else {
        "FAILED"@
    }) + (match error {
        Some(e) => " - Error: "@ + e,
        None => Seq::<char>::empty(),
    }) + "\n"@
}

/// The record of one backend scan.
pub open spec fn scan_line_view(timestamp: Seq<char>, source: Seq<char>, count: nat) -> Seq<char> {
    "["@ + timestamp + "] SCAN - Source: "@ + source + " - Found: "@ + dec_digits(count)
        + " entries\n"@
}

/// The record of one batch of action attempts.
pub open spec fn batch_line_view(
    timestamp: Seq<char>,
    action: Seq<char>,
    count: nat,
    success_count: nat,
) -> Seq<char> {
    "["@ + timestamp + "] BATCH "@ + action + " - Total: "@ + dec_digits(count) + " - Successful: "@
        + dec_digits(success_count) + " - Failed: "@ + dec_digits((count - success_count) as nat)
        + "\n"@
}

impl ActionLogger {
    /// A logger that records into the file at `path`.
    pub fn from_path(path: String) -> (r: Self)
        ensures
            r@ == path@,
    {
        ActionLogger { log_file_path: path }
    }

    /// The log file the records belong in.
    pub fn path(&self) -> (r: &str)
        ensures
            r@ == self@,
    {
        self.log_file_path.as_str()
    }

    /// Builds the record of one action attempt.
    pub fn action_line(
        timestamp: &str,
        action: &str,
        entry_name: &str,
        success: bool,
        error: Option<&str>,
    ) -> (r: String)
        ensures
            r@ == action_line_view(
                timestamp@,
                action@,
                entry_name@,
                success,
                match error {
                    Some(e) => Some(e@),
                    None => None,
                },
            ),
    {
        let mut line = String::new();
        line.append("[");
        line.append(timestamp);
        line.append("] ");
        line.append(action);
        line.append(" - Entry: '");
        line.append(entry_name);
        line.append("' - Status: ");
        if success {
            line.append("SUCCESS");
        } else {
            line.append("FAILED");
        }
        if let Some(e) = error {
            line.append(" - Error: ");
            line.append(e);
        }
        line.append("\n");
        line
    }

    /// Builds the record of one backend scan.
    pub fn scan_line(timestamp: &str, source: &str, count: u64) -> (r: String)
        ensures
            r@ == scan_line_view(timestamp@, source@, count as nat),
    {
        let mut line = String::new();
        line.append("[");
        line.append(timestamp);
        line.append("] SCAN - Source: ");
        line.append(source);
        line.append(" - Found: ");
        let n = u64_to_string(count);
        line.append(n.as_str());
        line.append(" entries\n");
        line
    }

    /// Builds the record of one batch of action attempts.
    pub fn batch_line(timestamp: &str, action: &str, count: u64, success_count: u64) -> (r: String)
        requires
            success_count <= count,
        ensures
            r@ == batch_line_view(timestamp@, action@, count as nat, success_count as nat),
    {
        let mut line = String::new();
        line.append("[");
        line.append(timestamp);
        line.append("] BATCH ");
        line.append(action);
        line.append(" - Total: ");
        let c = u64_to_string(count);
        line.append(c.as_str());
        line.append(" - Successful: ");
        let s = u64_to_string(success_count);
        line.append(s.as_str());
        line.append(" - Failed: ");
        let f = u64_to_string(count - success_count);
        line.append(f.as_str());
        line.append("\n");
        line
    }
}

} // verus!
