//! The configuration store: a small settings record, default-initialized
//! on first access and overwritten whole on every save.

use vstd::prelude::*;
use vstd::string::StringExecFns;

verus! {

/// The persisted settings record.
pub struct Config {
    pub github_token: Option<String>,
    pub target_org: String,
    pub scan_interval: u64,
    pub auto_start: bool,
}

/// The mathematical value of the settings record.
#[verifier::ext_equal]
pub struct ConfigView {
    pub github_token: Option<Seq<char>>,
    pub target_org: Seq<char>,
    pub scan_interval: u64,
    pub auto_start: bool,
}

impl DeepView for Config {
    type V = ConfigView;

    open spec fn deep_view(&self) -> ConfigView {
        ConfigView {
            github_token: self.github_token.deep_view(),
            target_org: self.target_org@,
            scan_interval: self.scan_interval,
            auto_start: self.auto_start,
        }
    }
}

impl Clone for Config {
    fn clone(&self) -> (res: Self)
        ensures
            res.deep_view() == self.deep_view(),
    {
        let res = Config {
            github_token: match &self.github_token {
                Some(t) => Some(t.clone()),
                None => None,
            },
            target_org: self.target_org.clone(),
            scan_interval: self.scan_interval,
            auto_start: self.auto_start,
        };
        proof {
            assert(res.deep_view() =~= self.deep_view());
        }
        res
    }
}

/// The settings of a first run: no token, the default organization, an
/// hourly scan, no autostart.
pub open spec fn default_config() -> ConfigView {
    ConfigView {
        github_token: None,
        target_org: "microsoft"@,
        scan_interval: 3600,
        auto_start: false,
    }
}

impl Default for Config {
    fn default() -> (r: Self)
        ensures
            r.deep_view() == default_config(),
    {
        let r = Config {
            github_token: None,
            target_org: String::from_str("microsoft"),
            scan_interval: 3600,
            auto_start: false,
        };
        proof {
            assert(r.deep_view() =~= default_config());
        }
        r
    }
}

/// The store's contents after a save: exactly the saved record.
pub open spec fn store_after_save(saved: Option<ConfigView>, c: ConfigView) -> Option<ConfigView> {
    Some(c)
}

/// What a load yields: the saved record, or the defaults on first access.
pub open spec fn loaded_config(saved: Option<ConfigView>) -> ConfigView {
    match saved {
        Some(c) => c,
        None => default_config(),
    }
}

/// Saving a configuration and then loading yields it back, field for
/// field, whatever the store held before.
pub proof fn lemma_config_round_trip(saved: Option<ConfigView>, c: ConfigView)
    ensures
        loaded_config(store_after_save(saved, c)) == c,
{
}

/// The single owner of the persisted settings record.
pub struct ConfigStore {
    pub saved: Option<Config>,
}

impl ConfigStore {
    /// A store that has never been written.
    pub fn new() -> (r: Self)
        ensures
            r.saved.deep_view() is None,
    {
        ConfigStore { saved: None }
    }

    /// Overwrites the stored record with `config`.
    pub fn save_config(&mut self, config: &Config)
        ensures
            final(self).saved.deep_view() == store_after_save(
                old(self).saved.deep_view(),
                config.deep_view(),
            ),
    {
        self.saved = Some(config.clone());
    }

    /// Yields the stored record; on first access the defaults are created,
    /// saved, and returned.
    pub fn load_config(&mut self) -> (r: Config)
        ensures
            r.deep_view() == loaded_config(old(self).saved.deep_view()),
            final(self).saved.deep_view() == Some(r.deep_view()),
    {
        match &self.saved {
            Some(c) => {
                let r = c.clone();
                proof {
                    assert(self.saved.deep_view() == Some(r.deep_view()));
                }
                r
            },
            None => {
                let d = Config::default();
                self.save_config(&d);
                d
            },
        }
    }

    /// Sets the token on the stored record, creating the record from the
    /// defaults when none was stored yet; everything else is kept.
    pub fn update_github_token(&mut self, token: String)
        ensures
            final(self).saved.deep_view() == Some(
                ConfigView {
                    github_token: Some(token@),
                    ..loaded_config(old(self).saved.deep_view())
                },
            ),
    {
        let mut config = self.load_config();
        config.github_token = Some(token);
        let ghost cv = config.deep_view();
        self.save_config(&config);
        proof {
            assert(cv =~= ConfigView {
                github_token: cv.github_token,
                ..loaded_config(old(self).saved.deep_view())
            });
        }
    }
}

} // verus!
