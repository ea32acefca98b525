//! The settings that persist between runs, and the list of processes whose
//! windows are made borderless without asking.

use vstd::prelude::*;
use vstd::string::*;
use crate::text::same_text;

verus! {

/// The settings as contracts speak of them.
pub struct ConfigView {
    pub auto_borderless_apps: Seq<Seq<char>>,
    pub run_on_startup: bool,
    pub startup_admin: bool,
}

/// The persisted settings.
#[derive(Debug, Clone)]
pub struct Config {
    /// Names of the processes whose windows are made borderless as soon as
    /// they are seen.
    pub auto_borderless_apps: Vec<String>,
    pub run_on_startup: bool,
    pub startup_admin: bool,
}

/// The texts of a sequence of strings.
pub open spec fn texts(names: Seq<String>) -> Seq<Seq<char>> {
    names.map_values(|name: String| name@)
}

/// The predicate "is not `name`".
pub open spec fn other_than(name: Seq<char>) -> spec_fn(Seq<char>) -> bool {
    |app: Seq<char>| app != name
}

impl View for Config {
    type V = ConfigView;

    open spec fn view(&self) -> ConfigView {
        ConfigView {
            auto_borderless_apps: texts(self.auto_borderless_apps@),
            run_on_startup: self.run_on_startup,
            startup_admin: self.startup_admin,
        }
    }
}

/// Tells whether `name` is among `names`.
fn holds_name(names: &Vec<String>, name: &str) -> (held: bool)
    ensures
        held == texts(names@).contains(name@),
{
    let mut i: usize = 0;
    while i < names.len()
        invariant
            i <= names@.len(),
            forall|j: int| 0 <= j < i ==> texts(names@)[j] != name@,
        decreases names@.len() - i,
    {
        if same_text(names[i].as_str(), name) {
            assert(texts(names@)[i as int] == name@);
            return true;
        }
        i += 1;
    }
    false
}

impl Config {
    /// The settings of a first run: no process listed, no start with the
    /// system.
    pub fn new() -> (config: Config)
        ensures
            config@ == (ConfigView {
                auto_borderless_apps: Seq::empty(),
                run_on_startup: false,
                startup_admin: false,
            }),
    {
        let config = Config {
            auto_borderless_apps: Vec::new(),
            run_on_startup: false,
            startup_admin: false,
        };
        assert(config@.auto_borderless_apps =~= Seq::<Seq<char>>::empty());
        config
    }

    /// Lists `process_name`, unless it is listed already.
    pub fn add_auto_borderless(&mut self, process_name: String)
        ensures
            final(self)@.auto_borderless_apps == if old(self)@.auto_borderless_apps.contains(
                process_name@,
            ) {
                old(self)@.auto_borderless_apps
            } else {
                old(self)@.auto_borderless_apps.push(process_name@)
            },
            final(self).run_on_startup == old(self).run_on_startup,
            final(self).startup_admin == old(self).startup_admin,
    {
        if !holds_name(&self.auto_borderless_apps, process_name.as_str()) {
            self.auto_borderless_apps.push(process_name);
            assert(final(self)@.auto_borderless_apps =~= old(self)@.auto_borderless_apps.push(
                process_name@,
            ));
        }
    }

    /// Takes every occurrence of `process_name` off the list.
    pub fn remove_auto_borderless(&mut self, process_name: &str)
        ensures
            final(self)@.auto_borderless_apps == old(self)@.auto_borderless_apps.filter(
                other_than(process_name@),
            ),
            !final(self)@.auto_borderless_apps.contains(process_name@),
            final(self).run_on_startup == old(self).run_on_startup,
            final(self).startup_admin == old(self).startup_admin,
    {
        let ghost before = self@.auto_borderless_apps;
        let ghost keep = other_than(process_name@);
        let mut listed: Vec<String> = Vec::new();
        std::mem::swap(&mut self.auto_borderless_apps, &mut listed);
        proof {
            reveal(Seq::filter);
            assert(before.take(0) =~= Seq::<Seq<char>>::empty());
            assert(self@.auto_borderless_apps =~= before.take(0).filter(keep));
        }
        let ghost given = listed@;
        for app in it: listed
            invariant
                it.seq() == given,
                before == texts(given),
                keep == other_than(process_name@),
                self.run_on_startup == old(self).run_on_startup,
                self.startup_admin == old(self).startup_admin,
                self@.auto_borderless_apps == before.take(it.index() as int).filter(keep),
        {
            let ghost i = it.index() as int;
            let ghost kept = self@.auto_borderless_apps;
            proof {
                assert(before[i] == app@);
                assert(before.take(i + 1) =~= before.take(i).push(app@));
                before.take(i).lemma_filter_push(app@, keep);
            }
            if !same_text(app.as_str(), process_name) {
                self.auto_borderless_apps.push(app);
                assert(self@.auto_borderless_apps =~= kept.push(app@));
            }
        }
        proof {
            assert(before.take(before.len() as int) =~= before);
            let after = before.filter(keep);
            if after.contains(process_name@) {
                let j = choose|j: int| 0 <= j < after.len() && after[j] == process_name@;
                before.lemma_filter_pred(keep, j);
            }
        }
    }

    /// Tells whether `process_name` is listed.
    pub fn is_auto_borderless(&self, process_name: &str) -> (listed: bool)
        ensures
            listed == self@.auto_borderless_apps.contains(process_name@),
    {
        holds_name(&self.auto_borderless_apps, process_name)
    }
}

impl Default for Config {
    fn default() -> (config: Config)
        ensures
            config@ == (ConfigView {
                auto_borderless_apps: Seq::empty(),
                run_on_startup: false,
                startup_admin: false,
            }),
    {
        Config::new()
    }
}

} // verus!
