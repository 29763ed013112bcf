//! Progress of the two background tasks, scan and simulation, and the requests
//! to stop them.
use vstd::prelude::*;

use crate::text::{decimal, push_decimal};

verus! {

/// What a scan is doing.
#[derive(Clone, Copy, Debug, PartialEq, Eq, Structural)]
pub enum ScanPhase {
    /// No scan was started.
    Unstarted,
    /// The hall of fame is read.
    Hof,
    /// The members of attackable guilds are read.
    Details,
    Done,
    Error,
    Aborted,
}

impl ScanPhase {
    /// The name of the phase, as it is reported.
    pub open spec fn text(self) -> Seq<char> {
        match self {
            ScanPhase::Unstarted => ""@,
            ScanPhase::Hof => "hof"@,
            ScanPhase::Details => "details"@,
            ScanPhase::Done => "done"@,
            ScanPhase::Error => "error"@,
            ScanPhase::Aborted => "aborted"@,
        }
    }

    /// The name of the phase, as it is reported.
    pub fn label(self) -> (r: &'static str)
        ensures
            r@ == self.text(),
    {
        match self {
            ScanPhase::Unstarted => "",
            ScanPhase::Hof => "hof",
            ScanPhase::Details => "details",
            ScanPhase::Done => "done",
            ScanPhase::Error => "error",
            ScanPhase::Aborted => "aborted",
        }
    }
}

/// What a simulation is doing.
#[derive(Clone, Copy, Debug, PartialEq, Eq, Structural)]
pub enum SimPhase {
    /// No simulation was started.
    Unstarted,
    /// The fighters of our guild are loaded.
    OwnRoster,
    /// Battles are simulated, guild by guild.
    Guilds,
    Done,
    Error,
    Aborted,
}

impl SimPhase {
    /// The name of the phase, as it is reported.
    pub open spec fn text(self) -> Seq<char> {
        match self {
            SimPhase::Unstarted => ""@,
            SimPhase::OwnRoster => "own-roster"@,
            SimPhase::Guilds => "guilds"@,
            SimPhase::Done => "done"@,
            SimPhase::Error => "error"@,
            SimPhase::Aborted => "aborted"@,
        }
    }

    /// The name of the phase, as it is reported.
    pub fn label(self) -> (r: &'static str)
        ensures
            r@ == self.text(),
    {
        match self {
            SimPhase::Unstarted => "",
            SimPhase::OwnRoster => "own-roster",
            SimPhase::Guilds => "guilds",
            SimPhase::Done => "done",
            SimPhase::Error => "error",
            SimPhase::Aborted => "aborted",
        }
    }
}

/// Progress of a task in phases of type `P`.
#[derive(Debug)]
pub struct TaskProgress<P> {
    pub running: bool,
    pub phase: P,
    pub current: u32,
    pub total: u32,
    pub message: String,
}

/// What a `TaskProgress` says.
pub struct TaskModel<P> {
    pub running: bool,
    pub phase: P,
    pub current: u32,
    pub total: u32,
    pub message: Seq<char>,
}

impl<P> View for TaskProgress<P> {
    type V = TaskModel<P>;

    open spec fn view(&self) -> TaskModel<P> {
        TaskModel {
            running: self.running,
            phase: self.phase,
            current: self.current,
            total: self.total,
            message: self.message@,
        }
    }
}

/// Progress of a scan.
pub type ScanProgress = TaskProgress<ScanPhase>;

/// Progress of a simulation.
pub type SimProgress = TaskProgress<SimPhase>;

/// Progress of a scan that was not started.
pub open spec fn scan_unstarted() -> TaskModel<ScanPhase> {
    TaskModel {
        running: false,
        phase: ScanPhase::Unstarted,
        current: 0,
        total: 0,
        message: Seq::empty(),
    }
}

/// Progress of a simulation that was not started.
pub open spec fn sim_unstarted() -> TaskModel<SimPhase> {
    TaskModel {
        running: false,
        phase: SimPhase::Unstarted,
        current: 0,
        total: 0,
        message: Seq::empty(),
    }
}

/// Progress of both tasks, with the requests to stop them.
#[derive(Debug)]
pub struct ProgressState {
    pub scan: ScanProgress,
    pub sim: SimProgress,
    /// Whether the scan is to stop.
    pub cancel_scan: bool,
    /// Whether the simulation is to stop.
    pub cancel_sim: bool,
}

/// What a `ProgressState` says.
pub struct ProgressModel {
    pub scan: TaskModel<ScanPhase>,
    pub sim: TaskModel<SimPhase>,
    pub cancel_scan: bool,
    pub cancel_sim: bool,
}

impl View for ProgressState {
    type V = ProgressModel;

    open spec fn view(&self) -> ProgressModel {
        ProgressModel {
            scan: self.scan@,
            sim: self.sim@,
            cancel_scan: self.cancel_scan,
            cancel_sim: self.cancel_sim,
        }
    }
}

fn no_scan() -> (r: ScanProgress)
    ensures
        r@ == scan_unstarted(),
{
    TaskProgress {
        running: false,
        phase: ScanPhase::Unstarted,
        current: 0,
        total: 0,
        message: String::new(),
    }
}

fn no_sim() -> (r: SimProgress)
    ensures
        r@ == sim_unstarted(),
{
    TaskProgress {
        running: false,
        phase: SimPhase::Unstarted,
        current: 0,
        total: 0,
        message: String::new(),
    }
}

impl ProgressState {
    /// Nothing was started.
    pub fn new() -> (r: ProgressState)
        ensures
            r@ == (ProgressModel {
                scan: scan_unstarted(),
                sim: sim_unstarted(),
                cancel_scan: false,
                cancel_sim: false,
            }),
    {
        ProgressState { scan: no_scan(), sim: no_sim(), cancel_scan: false, cancel_sim: false }
    }

    /// Forgets what was done; requests to stop stay.
    pub fn reset(&mut self)
        ensures
            final(self)@ == (ProgressModel {
                scan: scan_unstarted(),
                sim: sim_unstarted(),
                ..old(self)@
            }),
    {
        self.scan = no_scan();
        self.sim = no_sim();
    }

    // ── Scan ─────────────────────────────────────────────────────────────────

    /// A scan begins.
    pub fn begin_scan(&mut self)
        ensures
            final(self)@ == (ProgressModel {
                scan: TaskModel {
                    running: true,
                    phase: ScanPhase::Hof,
                    current: 0,
                    total: 0,
                    message: "Starte HoF-Scan..."@,
                },
                cancel_scan: false,
                ..old(self)@
            }),
    {
        self.cancel_scan = false;
        self.scan = TaskProgress {
            running: true,
            phase: ScanPhase::Hof,
            current: 0,
            total: 0,
            message: "Starte HoF-Scan...".to_owned(),
        };
    }

    /// A scan has failed.
    pub fn fail_scan(&mut self, reason: &str)
        ensures
            final(self)@ == (ProgressModel {
                scan: TaskModel {
                    running: false,
                    phase: ScanPhase::Error,
                    current: 0,
                    total: 0,
                    message: "Scan fehlgeschlagen: "@ + reason@,
                },
                ..old(self)@
            }),
    {
        self.scan = TaskProgress {
            running: false,
            phase: ScanPhase::Error,
            current: 0,
            total: 0,
            message: "Scan fehlgeschlagen: ".to_owned().concat(reason),
        };
    }

    /// A scan ends, by itself or because it was to stop; any request to stop is
    /// done with.
    pub fn finish_scan(&mut self, was_cancelled: bool)
        ensures
            final(self)@ == (ProgressModel {
                scan: TaskModel {
                    running: false,
                    phase: if was_cancelled {
                        ScanPhase::Aborted
                    } else {
                        ScanPhase::Done
                    },
                    current: old(self)@.scan.current,
                    total: old(self)@.scan.total,
                    message: if was_cancelled {
                        "Scan abgebrochen – Teilergebnis gespeichert."@
                    } else {
                        "Scan abgeschlossen."@
                    },
                },
                cancel_scan: false,
                ..old(self)@
            }),
    {
        if was_cancelled {
            self.scan.phase = ScanPhase::Aborted;
            self.scan.message = "Scan abgebrochen – Teilergebnis gespeichert.".to_owned();
        } else {
            self.scan.phase = ScanPhase::Done;
            self.scan.message = "Scan abgeschlossen.".to_owned();
        }
        self.scan.running = false;
        self.cancel_scan = false;
    }

    /// Asks a running scan to stop, and answers whether one is running.
    pub fn abort_scan(&mut self) -> (answer: String)
        ensures
            final(self)@ == (ProgressModel {
                cancel_scan: old(self).cancel_scan || old(self).scan.running,
                ..old(self)@
            }),
            answer@ == if old(self).scan.running {
                "Abbruch angefordert"@
            } else {
                "Kein laufender Scan"@
            },
    {
        if !self.scan.running {
            return "Kein laufender Scan".to_owned();
        }
        self.cancel_scan = true;
        "Abbruch angefordert".to_owned()
    }

    // ── Simulation ───────────────────────────────────────────────────────────

    /// A simulation begins.
    pub fn begin_sim(&mut self, guilds: usize)
        ensures
            final(self)@ == (ProgressModel {
                sim: TaskModel {
                    running: true,
                    phase: SimPhase::OwnRoster,
                    current: 0,
                    total: guilds as u32,
                    message: "Aktualisiere eigene Kampfwerte..."@,
                },
                ..old(self)@
            }),
    {
        self.sim = TaskProgress {
            running: true,
            phase: SimPhase::OwnRoster,
            current: 0,
            total: guilds as u32,
            message: "Aktualisiere eigene Kampfwerte...".to_owned(),
        };
    }

    /// The fighters of our guild could not be loaded; the simulation ends.
    pub fn fail_sim(&mut self, reason: &str)
        ensures
            final(self)@ == (ProgressModel {
                sim: TaskModel {
                    running: false,
                    phase: SimPhase::Error,
                    current: 0,
                    total: 0,
                    message: "Fehler beim Laden eigener Kampfwerte: "@ + reason@,
                },
                ..old(self)@
            }),
    {
        self.sim = TaskProgress {
            running: false,
            phase: SimPhase::Error,
            current: 0,
            total: 0,
            message: "Fehler beim Laden eigener Kampfwerte: ".to_owned().concat(reason),
        };
    }

    /// The fighters of our guild are loaded; the guilds are next.
    pub fn begin_guilds(&mut self)
        ensures
            final(self)@ == (ProgressModel {
                sim: TaskModel {
                    phase: SimPhase::Guilds,
                    message: "Simuliere Gilden..."@,
                    ..old(self)@.sim
                },
                ..old(self)@
            }),
    {
        self.sim.phase = SimPhase::Guilds;
        self.sim.message = "Simuliere Gilden...".to_owned();
    }

    /// A simulation ends with results for `results` guilds, by itself or
    /// because it was to stop; any request to stop is done with.
    pub fn finish_sim(&mut self, was_cancelled: bool, results: usize)
        ensures
            final(self)@ == (ProgressModel {
                sim: TaskModel {
                    running: false,
                    phase: if was_cancelled {
                        SimPhase::Aborted
                    } else {
                        SimPhase::Done
                    },
                    current: old(self)@.sim.current,
                    total: old(self)@.sim.total,
                    message: if was_cancelled {
                        "Simulation abgebrochen."@
                    } else {
                        "Simulation abgeschlossen ("@ + decimal(results as nat) + " Gilde(n))."@
                    },
                },
                cancel_sim: false,
                ..old(self)@
            }),
    {
        if was_cancelled {
            self.sim.phase = SimPhase::Aborted;
            self.sim.message = "Simulation abgebrochen.".to_owned();
        } else {
            self.sim.phase = SimPhase::Done;
            let mut message: String = "Simulation abgeschlossen (".to_owned();
            push_decimal(&mut message, results as u64);
            message.append(" Gilde(n)).");
            self.sim.message = message;
        }
        self.sim.running = false;
        self.cancel_sim = false;
    }

    /// Asks a running simulation to stop, and answers whether one is running.
    pub fn abort_simulate(&mut self) -> (answer: String)
        ensures
            final(self)@ == (ProgressModel {
                cancel_sim: old(self).cancel_sim || old(self).sim.running,
                ..old(self)@
            }),
            answer@ == if old(self).sim.running {
                "Abbruch angefordert"@
            } else {
                "Keine laufende Simulation"@
            },
    {
        if !self.sim.running {
            return "Keine laufende Simulation".to_owned();
        }
        self.cancel_sim = true;
        "Abbruch angefordert".to_owned()
    }
}

/// Progress of a task starts from nothing.
pub proof fn unstarted_is_nothing()
    ensures
        !scan_unstarted().running,
        scan_unstarted().phase is Unstarted,
        scan_unstarted().current == 0 && scan_unstarted().total == 0,
        scan_unstarted().message.len() == 0,
        !sim_unstarted().running,
        sim_unstarted().phase is Unstarted,
        sim_unstarted().current == 0 && sim_unstarted().total == 0,
        sim_unstarted().message.len() == 0,
{
}

} // verus!
