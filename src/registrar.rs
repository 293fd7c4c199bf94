//! The service unit: its descriptor, its text in the host's unit syntax, and
//! the service-manager verbs that act on it.
use vstd::prelude::*;
use crate::text::texts;

verus! {

/// How the host's service manager is to run the service.
#[derive(Clone, Debug)]
pub struct ServiceUnit {
    pub name: String,
    pub description: String,
    pub exec_path: String,
    pub working_user: String,
    pub restart_policy: String,
    /// Targets that must be up first, in order.
    pub after_targets: Vec<String>,
    pub enable_on_boot: bool,
}

/// A verb of the host's service manager.
#[derive(Clone, Copy, Debug, PartialEq, Eq, Structural)]
pub enum Verb {
    Stop,
    Disable,
    Reload,
}

/// A service-manager command that failed; `status` is its exit code, if it
/// ran at all.
#[derive(Clone, Copy, Debug, PartialEq, Eq, Structural)]
pub struct ServiceManagerError {
    pub verb: Verb,
    pub status: Option<i32>,
}

/// The targets separated by single spaces.
pub open spec fn joined(ts: Seq<String>) -> Seq<char>
    decreases ts.len(),
{
    if ts.len() == 0 {
        Seq::<char>::empty()
    } else if ts.len() == 1 {
        ts[0]@
    } else {
        joined(ts.drop_last()) + " "@ + ts.last()@
    }
}

/// The unit's text in the host's unit-definition syntax.
pub open spec fn unit_text(u: ServiceUnit) -> Seq<char> {
    "[Unit]\nDescription="@ + u.description@ + "\nAfter="@ + joined(u.after_targets@)
        + "\n\n[Service]\nExecStart="@ + u.exec_path@ + "\nRestart="@ + u.restart_policy@
        + "\nUser="@ + u.working_user@ + "\n"@
        + if u.enable_on_boot { "\n[Install]\nWantedBy=multi-user.target\n"@ } else { Seq::<char>::empty() }
}

/// The fields that the unit's text is made of.
pub open spec fn same_unit(u: ServiceUnit, v: ServiceUnit) -> bool {
    &&& u.description@ == v.description@
    &&& u.exec_path@ == v.exec_path@
    &&& u.working_user@ == v.working_user@
    &&& u.restart_policy@ == v.restart_policy@
    &&& u.after_targets@.len() == v.after_targets@.len()
    &&& forall|i: int| 0 <= i < u.after_targets@.len() ==> #[trigger] u.after_targets@[i]@ == v.after_targets@[i]@
    &&& u.enable_on_boot == v.enable_on_boot
}

/// The unit this installer registers, built from fixed values only.
pub fn scraper_unit() -> (r: ServiceUnit)
    ensures
        r.name@ == "willhaben-scraper"@,
        r.exec_path@ == "/usr/local/bin/willhaben-scraper"@,
        r.working_user@ == "scraper"@,
        r.restart_policy@ == "always"@,
        r.after_targets@.len() == 1,
        r.after_targets@[0]@ == "network.target"@,
        r.enable_on_boot,
{
    let mut after_targets: Vec<String> = Vec::new();
    after_targets.push("network.target".to_owned());
    ServiceUnit {
        name: "willhaben-scraper".to_owned(),
        description: "Willhaben Property Scraper".to_owned(),
        exec_path: "/usr/local/bin/willhaben-scraper".to_owned(),
        working_user: "scraper".to_owned(),
        restart_policy: "always".to_owned(),
        after_targets,
        enable_on_boot: true,
    }
}

impl ServiceUnit {
    /// The unit's text, as `unit_text` spells it out.
    pub fn render(&self) -> (r: String)
        ensures
            r@ == unit_text(*self),
    {
        let mut out = "[Unit]\nDescription=".to_owned();
        out.append(self.description.as_str());
        out.append("\nAfter=");
        let mut i: usize = 0;
        while i < self.after_targets.len()
            invariant
                i <= self.after_targets@.len(),
                out@ == "[Unit]\nDescription="@ + self.description@ + "\nAfter="@ + joined(self.after_targets@.take(i as int)),
            decreases self.after_targets@.len() - i,
        {
            let ghost before = out@;
            if i > 0 {
                out.append(" ");
            }
            out.append(self.after_targets[i].as_str());
            proof {
                let ts = self.after_targets@.take(i + 1);
                assert(ts.drop_last() =~= self.after_targets@.take(i as int));
                if i == 0 {
                    assert(self.after_targets@.take(0) =~= Seq::<String>::empty());
                }
            }
            i = i + 1;
        }
        proof {
            assert(self.after_targets@.take(i as int) =~= self.after_targets@);
        }
        out.append("\n\n[Service]\nExecStart=");
        out.append(self.exec_path.as_str());
        out.append("\nRestart=");
        out.append(self.restart_policy.as_str());
        out.append("\nUser=");
        out.append(self.working_user.as_str());
        out.append("\n");
        if self.enable_on_boot {
            out.append("\n[Install]\nWantedBy=multi-user.target\n");
        }
        proof {
            assert(out@ =~= unit_text(*self));
        }
        out
    }
}

proof fn lemma_joined_same(ts: Seq<String>, us: Seq<String>)
    requires
        ts.len() == us.len(),
        forall|i: int| 0 <= i < ts.len() ==> #[trigger] ts[i]@ == us[i]@,
    ensures
        joined(ts) == joined(us),
    decreases ts.len(),
{
    if ts.len() > 1 {
        lemma_joined_same(ts.drop_last(), us.drop_last());
    }
}

/// Rendering is a function of the descriptor's fields: a reinstall from the
/// same values writes a byte-identical unit.
pub proof fn lemma_render_deterministic(u: ServiceUnit, v: ServiceUnit)
    requires
        same_unit(u, v),
    ensures
        unit_text(u) == unit_text(v),
{
    lemma_joined_same(u.after_targets@, v.after_targets@);
}

pub open spec fn verb_words(verb: Verb, unit: Seq<char>) -> Seq<Seq<char>> {
    match verb {
        Verb::Stop => seq!["stop"@, unit + ".service"@],
        Verb::Disable => seq!["disable"@, unit + ".service"@],
        Verb::Reload => seq!["daemon-reload"@],
    }
}

/// The arguments of the service-manager command for a verb on the unit.
pub fn verb_args(verb: Verb, unit: &String) -> (r: Vec<String>)
    ensures
        texts(r@) == verb_words(verb, unit@),
{
    let mut args: Vec<String> = Vec::new();
    match verb {
        Verb::Stop => {
            args.push("stop".to_owned());
            let mut u = unit.clone();
            u.append(".service");
            args.push(u);
        },
        Verb::Disable => {
            args.push("disable".to_owned());
            let mut u = unit.clone();
            u.append(".service");
            args.push(u);
        },
        Verb::Reload => {
            args.push("daemon-reload".to_owned());
        },
    }
    proof {
        assert(texts(args@) =~= verb_words(verb, unit@));
    }
    args
}

/// Where the unit's definition file goes.
pub fn unit_path(u: &ServiceUnit) -> (r: String)
    ensures
        r@ == "/etc/systemd/system/"@ + u.name@ + ".service"@,
{
    let mut p = "/etc/systemd/system/".to_owned();
    p.append(u.name.as_str());
    p.append(".service");
    p
}

} // verus!
