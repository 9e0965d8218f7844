//! A section profiler: named sections accumulate the wall-clock time spent
//! in them. What a clock returns is outside any contract; how the readings
//! are accumulated per section is exact.

use vstd::prelude::*;
use vstd::string::StringExecFns;

use crate::strutil::str_copy;
use crate::strutil::usize_to_string;
use crate::table::assoc_get;
use crate::table::assoc_put;
use crate::table::spec_assoc;

verus! {

#[verifier::external_type_specification]
#[verifier::external_body]
pub struct ExInstant(std::time::Instant);

/// Relies on `std::time::Instant::now`: a reading of the monotonic clock.
/// Nothing is promised about the value read.
pub assume_specification[ std::time::Instant::now ]() -> (r: std::time::Instant)
;

/// Relies on `std::time::Instant::elapsed`: the time since the reading was
/// taken. Nothing is promised about the duration returned.
pub assume_specification[ std::time::Instant::elapsed ](moment: &std::time::Instant) -> (r:
    std::time::Duration)
;

/// Relies on `std::time::Duration::as_nanos`: the duration in whole
/// nanoseconds. Nothing is promised about the value returned.
pub assume_specification[ std::time::Duration::as_nanos ](duration: &std::time::Duration) -> (r:
    u128)
;

/// Accumulates, per named section, the nanoseconds spent inside it.
#[derive(Debug)]
pub struct Profiler {
    start_time: std::time::Instant,
    section_times: Vec<(String, usize)>,
    current_section: Option<(String, std::time::Instant)>,
}

impl Profiler {
    /// The accumulated nanoseconds, by section name.
    pub closed spec fn spec_sections(&self) -> Seq<(String, usize)> {
        self.section_times@
    }

    /// The name of the section being timed, if one is open.
    pub closed spec fn spec_current(&self) -> Option<Seq<char>> {
        match self.current_section {
            Some((name, _)) => Some(name@),
            None => None,
        }
    }

    /// A fresh profiler: no sections, nothing being timed.
    pub fn new() -> (r: Profiler)
        ensures
            r.spec_sections().len() == 0,
            r.spec_current() is None,
    {
        Profiler {
            start_time: std::time::Instant::now(),
            section_times: Vec::new(),
            current_section: None,
        }
    }

    /// Opens the named section, first closing any section still open and
    /// crediting it with its elapsed time.
    pub fn start_section(&mut self, name: &str)
        ensures
            final(self).spec_current() == Some(name@),
            old(self).spec_current() is None ==> final(self).spec_sections() == old(
                self,
            ).spec_sections(),
    {
        if self.current_section.is_some() {
            self.end_section();
        }
        self.current_section = Some((str_copy(name), std::time::Instant::now()));
    }

    /// Closes the open section, crediting it with its elapsed time; closing
    /// with no section open changes nothing. An accumulated total sticks at
    /// the 64-bit maximum rather than wrapping.
    pub fn end_section(&mut self)
        ensures
            final(self).spec_current() is None,
            old(self).spec_current() matches Some(name) ==> {
                &&& spec_assoc(final(self).spec_sections(), name) matches Some(total)
                &&& (match spec_assoc(old(self).spec_sections(), name) {
                    Some(before) => spec_assoc(
                        final(self).spec_sections(),
                        name,
                    ) matches Some(total) && total >= before,
                    None => true,
                })
                &&& (forall|other: Seq<char>|
                    other != name ==> spec_assoc(final(self).spec_sections(), other) == spec_assoc(
                        old(self).spec_sections(),
                        other,
                    ))
            },
            old(self).spec_current() is None ==> final(self).spec_sections() == old(
                self,
            ).spec_sections(),
    {
        let mut open: Option<(String, std::time::Instant)> = None;
        core::mem::swap(&mut self.current_section, &mut open);
        match open {
            Some((name, started)) => {
                let wide: u128 = started.elapsed().as_nanos();
                let elapsed: usize = if wide > usize::MAX as u128 {
                    usize::MAX
                } else {
                    wide as usize
                };
                let before: usize = match assoc_get(&self.section_times, name.as_str()) {
                    Some(total) => *total,
                    None => 0,
                };
                let total: usize = if before > usize::MAX - elapsed {
                    usize::MAX
                } else {
                    before + elapsed
                };
                assoc_put(&mut self.section_times, name, total);
            },
            None => {},
        }
    }

    /// Renders the accumulated totals, one line per section in first-use
    /// order, with each section's share of their sum in whole percent.
    pub fn report(&self) -> (r: String)
        ensures
            self.spec_sections().len() == 0 ==> r@ == "Profiling Report:\n"@,
    {
        let mut report = str_copy("Profiling Report:\n");
        let mut total: usize = 0;
        let mut i: usize = 0;
        while i < self.section_times.len()
            invariant
                i <= self.section_times@.len(),
            decreases self.section_times@.len() - i,
        {
            let spent = self.section_times[i].1;
            total = if total > usize::MAX - spent {
                usize::MAX
            } else {
                total + spent
            };
            i = i + 1;
        }
        let mut k: usize = 0;
        while k < self.section_times.len()
            invariant
                k <= self.section_times@.len(),
                self.section_times@.len() == 0 ==> report@ == "Profiling Report:\n"@,
            decreases self.section_times@.len() - k,
        {
            let entry = &self.section_times[k];
            report.append(entry.0.as_str());
            report.append(": ");
            report.append(usize_to_string(entry.1).as_str());
            report.append("ns (");
            let percent: usize = if total == 0 {
                0
            } else {
                let scaled: u128 = entry.1 as u128 * 100u128;
                #[verifier::truncate]
                ((scaled / total as u128) as usize)
            };
            report.append(usize_to_string(percent).as_str());
            report.append("%)\n");
            k = k + 1;
        }
        report
    }
}

} // verus!
