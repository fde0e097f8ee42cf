//! Settings: the global theme choice and the per-project `.volt.toml`
//! (base URL, saved drafts and remote profiles).
use vstd::prelude::*;
use crate::keyed::KeyedList;
use crate::text::string_from;

verus! {

/// The saved text of a route's editor tabs.
#[derive(Debug, Clone)]
pub struct RouteConfig {
    pub headers: String,
    pub body: String,
    pub params: String,
    pub auth: String,
}

impl Default for RouteConfig {
    /// All four texts empty.
    fn default() -> (r: RouteConfig)
        ensures
            r.headers@ == Seq::<char>::empty(),
            r.body@ == Seq::<char>::empty(),
            r.params@ == Seq::<char>::empty(),
            r.auth@ == Seq::<char>::empty(),
    {
        RouteConfig { headers: String::new(), body: String::new(), params: String::new(), auth: String::new() }
    }
}

/// Settings shared by every project.
#[derive(Debug, Clone)]
pub struct GlobalConfig {
    pub theme: String,
}

impl Default for GlobalConfig {
    /// The "vesper" theme.
    fn default() -> (c: GlobalConfig)
        ensures
            c.theme@ == "vesper"@,
    {
        GlobalConfig { theme: string_from("vesper") }
    }
}

/// A remote host as written in the configuration file.
#[derive(Debug, Clone)]
pub struct RemoteConfigEntry {
    pub host: String,
    pub user: String,
    pub port: u16,
    pub identity: Option<String>,
}

/// The SSH port used when an entry gives none.
pub fn default_port() -> (p: u16)
    ensures
        p == 22,
{
    22
}

impl RemoteConfigEntry {
    /// A copy of this entry.
    pub fn duplicate(&self) -> (e: RemoteConfigEntry)
        ensures
            e == *self,
    {
        let identity = match &self.identity {
            Some(i) => Some(i.clone()),
            None => None,
        };
        RemoteConfigEntry { host: self.host.clone(), user: self.user.clone(), port: self.port, identity }
    }
}

/// The project configuration.
#[derive(Debug)]
pub struct AppConfig {
    pub base_url: String,
    pub last_selected_route: Option<String>,
    pub drafts: KeyedList<RouteConfig>,
    pub remote: Option<KeyedList<RemoteConfigEntry>>,
    pub current_remote: Option<String>,
}

impl Default for AppConfig {
    /// Base URL "http://localhost:3000", nothing else set.
    fn default() -> (c: AppConfig)
        ensures
            c.base_url@ == "http://localhost:3000"@,
            c.last_selected_route is None,
            c.drafts@ == Map::<Seq<char>, RouteConfig>::empty(),
            c.remote is None,
            c.current_remote is None,
    {
        AppConfig {
            base_url: string_from("http://localhost:3000"),
            last_selected_route: None,
            drafts: KeyedList::new(),
            remote: None,
            current_remote: None,
        }
    }
}

impl AppConfig {
    /// The remote profile called `name`, if the configuration has remotes
    /// and one of them has that name.
    pub fn get_remote(&self, name: &str) -> (r: Option<RemoteConfigEntry>)
        ensures
            match self.remote {
                None => r is None,
                Some(m) => if m@.contains_key(name@) {
                    r == Some(m@[name@])
                } else {
                    r is None
                },
            },
    {
        match &self.remote {
            None => None,
            Some(m) => match m.get(name) {
                Some(e) => Some(e.duplicate()),
                None => None,
            },
        }
    }

    /// Selects the remote executor by name, or the local one with `None`.
    pub fn set_current_remote(&mut self, remote_name: Option<String>)
        ensures
            final(self).current_remote == remote_name,
            final(self).base_url == old(self).base_url,
            final(self).last_selected_route == old(self).last_selected_route,
            final(self).drafts == old(self).drafts,
            final(self).remote == old(self).remote,
    {
        self.current_remote = remote_name;
    }
}

} // verus!
