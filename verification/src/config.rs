//! Configuration tree for the SNI proxy: a root holding groups, each group
//! holding hostname mappings, with optional `enable` / `enable_sni` / `sni`
//! toggles that cascade from the root downward.
use vstd::prelude::*;

verus! {

/// The TLS policy chosen for one hostname: present no server name, present a
/// different (fronting) name, or present the hostname itself.
#[derive(Debug)]
pub enum Sni {
    Disable,
    Override(String),
    Remain(String),
}

/// Ghost mirror of `Sni` over character sequences.
pub enum SniView {
    Disable,
    Override(Seq<char>),
    Remain(Seq<char>),
}

impl View for Sni {
    type V = SniView;

    open spec fn view(&self) -> SniView {
        match self {
            Sni::Disable => SniView::Disable,
            Sni::Override(s) => SniView::Override(s@),
            Sni::Remain(s) => SniView::Remain(s@),
        }
    }
}

impl PartialEq for Sni {
    fn eq(&self, other: &Sni) -> bool {
        match (self, other) {
            (Sni::Disable, Sni::Disable) => true,
            (Sni::Override(a), Sni::Override(b)) => *a == *b,
            (Sni::Remain(a), Sni::Remain(b)) => *a == *b,
            _ => false,
        }
    }
}

impl vstd::std_specs::cmp::PartialEqSpecImpl for Sni {
    open spec fn obeys_eq_spec() -> bool {
        true
    }

    open spec fn eq_spec(&self, other: &Sni) -> bool {
        self@ == other@
    }
}

/// A single origin hostname and its toggles.
#[derive(Debug)]
pub struct Mapping {
    pub enable: Option<bool>,
    pub enable_sni: Option<bool>,
    pub hostname: String,
    pub sni: Option<String>,
}

/// A named list of mappings sharing the group's toggles.
#[derive(Debug)]
pub struct Group {
    pub enable: Option<bool>,
    pub enable_sni: Option<bool>,
    pub name: String,
    pub sni: Option<String>,
    pub mappings: Vec<Mapping>,
}

/// The configuration root: global toggles and the ordered list of groups.
#[derive(Debug)]
pub struct Config {
    pub enable: Option<bool>,
    pub enable_sni: Option<bool>,
    pub groups: Vec<Group>,
}

/// An unset toggle defaults to enabled.
pub open spec fn enabled_of(o: Option<bool>) -> bool {
    match o {
        Some(b) => b,
        None => true,
    }
}

/// Anything in the tree that carries the two toggles.
pub trait Switchable: Sized {
    spec fn spec_enable(&self) -> Option<bool>;

    spec fn spec_enable_sni(&self) -> Option<bool>;

    /// The `enable` toggle with its default applied.
    fn enabled(&self) -> (r: bool)
        ensures
            r == enabled_of(self.spec_enable()),
    ;

    /// The `enable_sni` toggle with its default applied.
    fn enabled_sni(&self) -> (r: bool)
        ensures
            r == enabled_of(self.spec_enable_sni()),
    ;
}

impl Switchable for Mapping {
    open spec fn spec_enable(&self) -> Option<bool> {
        self.enable
    }

    open spec fn spec_enable_sni(&self) -> Option<bool> {
        self.enable_sni
    }

    fn enabled(&self) -> bool {
        match self.enable {
            Some(b) => b,
            None => true,
        }
    }

    fn enabled_sni(&self) -> bool {
        match self.enable_sni {
            Some(b) => b,
            None => true,
        }
    }
}

impl Switchable for Group {
    open spec fn spec_enable(&self) -> Option<bool> {
        self.enable
    }

    open spec fn spec_enable_sni(&self) -> Option<bool> {
        self.enable_sni
    }

    fn enabled(&self) -> bool {
        match self.enable {
            Some(b) => b,
            None => true,
        }
    }

    fn enabled_sni(&self) -> bool {
        match self.enable_sni {
            Some(b) => b,
            None => true,
        }
    }
}

impl Switchable for Config {
    open spec fn spec_enable(&self) -> Option<bool> {
        self.enable
    }

    open spec fn spec_enable_sni(&self) -> Option<bool> {
        self.enable_sni
    }

    fn enabled(&self) -> bool {
        match self.enable {
            Some(b) => b,
            None => true,
        }
    }

    fn enabled_sni(&self) -> bool {
        match self.enable_sni {
            Some(b) => b,
            None => true,
        }
    }
}

impl Mapping {
    /// A mapping for `hostname` with every toggle left unset.
    pub fn new(hostname: &str) -> (r: Mapping)
        ensures
            r.enable == None::<bool>,
            r.enable_sni == None::<bool>,
            r.hostname@ == hostname@,
            r.sni == None::<String>,
    {
        Mapping {
            enable: None,
            enable_sni: None,
            hostname: hostname.to_owned(),
            sni: None,
        }
    }

    /// The same mapping with its `sni` set to `sni`.
    pub fn override_sni(self, sni: &str) -> (r: Mapping)
        ensures
            r.enable == self.enable,
            r.enable_sni == self.enable_sni,
            r.hostname == self.hostname,
            r.sni is Some && r.sni->0@ == sni@,
    {
        Mapping {
            enable: self.enable,
            enable_sni: self.enable_sni,
            hostname: self.hostname,
            sni: Some(sni.to_owned()),
        }
    }

    /// The same mapping with SNI switched off.
    pub fn disable_sni(self) -> (r: Mapping)
        ensures
            r.enable == self.enable,
            r.enable_sni == Some(false),
            r.hostname == self.hostname,
            r.sni == self.sni,
    {
        Mapping {
            enable: self.enable,
            enable_sni: Some(false),
            hostname: self.hostname,
            sni: self.sni,
        }
    }
}

impl Group {
    /// A group named `name` over `mappings`, with every toggle left unset.
    pub fn new(name: &str, mappings: Vec<Mapping>) -> (r: Group)
        ensures
            r.enable == None::<bool>,
            r.enable_sni == None::<bool>,
            r.name@ == name@,
            r.sni == None::<String>,
            r.mappings == mappings,
    {
        Group {
            enable: None,
            enable_sni: None,
            name: name.to_owned(),
            sni: None,
            mappings,
        }
    }

    /// The same group with SNI switched off.
    pub fn disable_sni(self) -> (r: Group)
        ensures
            r.enable == self.enable,
            r.enable_sni == Some(false),
            r.name == self.name,
            r.sni == self.sni,
            r.mappings == self.mappings,
    {
        Group {
            enable: self.enable,
            enable_sni: Some(false),
            name: self.name,
            sni: self.sni,
            mappings: self.mappings,
        }
    }
}

impl Config {
    /// A configuration over `groups` with the global toggles left unset.
    pub fn new(groups: Vec<Group>) -> (r: Config)
        ensures
            r.enable == None::<bool>,
            r.enable_sni == None::<bool>,
            r.groups == groups,
    {
        Config {
            enable: None,
            enable_sni: None,
            groups,
        }
    }
}


/// A mapping for `h` with no toggle set and no fronting name.
pub open spec fn plain_mapping(m: Mapping, h: Seq<char>) -> bool {
    &&& m.enable == None::<bool>
    &&& m.enable_sni == None::<bool>
    &&& m.sni == None::<String>
    &&& m.hostname@ == h
}

/// A mapping for `h` fronted by the name `s`, with no toggle set.
pub open spec fn fronted_mapping(m: Mapping, h: Seq<char>, s: Seq<char>) -> bool {
    &&& m.enable == None::<bool>
    &&& m.enable_sni == None::<bool>
    &&& m.hostname@ == h
    &&& m.sni is Some
    &&& m.sni->0@ == s
}

/// A group called `name` of `n` mappings with no toggle set.
pub open spec fn plain_group(g: Group, name: Seq<char>, n: int) -> bool {
    &&& g.enable == None::<bool>
    &&& g.enable_sni == None::<bool>
    &&& g.sni == None::<String>
    &&& g.name@ == name
    &&& g.mappings@.len() == n
}

/// A group called `name` of `n` mappings whose SNI toggle is switched off.
pub open spec fn nosni_group(g: Group, name: Seq<char>, n: int) -> bool {
    &&& g.enable == None::<bool>
    &&& g.enable_sni == Some(false)
    &&& g.sni == None::<String>
    &&& g.name@ == name
    &&& g.mappings@.len() == n
}

impl Default for Config {
    /// The configuration written on first launch: a few well-known site
    /// families, some with SNI disabled outright and some domain-fronted.
    fn default() -> (r: Config)
        ensures
            r.enable == None::<bool>,
            r.enable_sni == None::<bool>,
            r.groups@.len() == 6,
            plain_group(r.groups@[0], "Duckduckgo"@, 4),
            plain_mapping(r.groups@[0].mappings@[0], "duck.com"@),
            plain_mapping(r.groups@[0].mappings@[1], "duckduckgo.com"@),
            plain_mapping(r.groups@[0].mappings@[2], "external-content.duckduckgo.com"@),
            plain_mapping(r.groups@[0].mappings@[3], "links.duckduckgo.com"@),
            nosni_group(r.groups@[1], "Github"@, 14),
            plain_mapping(r.groups@[1].mappings@[0], "avatars.githubusercontent.com"@),
            plain_mapping(r.groups@[1].mappings@[1], "avatars0.githubusercontent.com"@),
            plain_mapping(r.groups@[1].mappings@[2], "avatars1.githubusercontent.com"@),
            plain_mapping(r.groups@[1].mappings@[3], "avatars2.githubusercontent.com"@),
            plain_mapping(r.groups@[1].mappings@[4], "avatars3.githubusercontent.com"@),
            plain_mapping(r.groups@[1].mappings@[5], "camo.githubusercontent.com"@),
            plain_mapping(r.groups@[1].mappings@[6], "cloud.githubusercontent.com"@),
            plain_mapping(r.groups@[1].mappings@[7], "gist.github.com"@),
            plain_mapping(r.groups@[1].mappings@[8], "gist.githubusercontent.com"@),
            plain_mapping(r.groups@[1].mappings@[9], "github.com"@),
            plain_mapping(r.groups@[1].mappings@[10], "github.githubassets.com"@),
            plain_mapping(r.groups@[1].mappings@[11], "objects.githubusercontent.com"@),
            plain_mapping(r.groups@[1].mappings@[12], "raw.githubusercontent.com"@),
            plain_mapping(r.groups@[1].mappings@[13], "user-images.githubusercontent.com"@),
            plain_group(r.groups@[2], "OneDrive"@, 4),
            plain_mapping(r.groups@[2].mappings@[0], "onedrive.com"@),
            plain_mapping(r.groups@[2].mappings@[1], "api.onedrive.com"@),
            plain_mapping(r.groups@[2].mappings@[2], "onedrive.live.com"@),
            plain_mapping(r.groups@[2].mappings@[3], "skyapi.onedrive.live.com"@),
            nosni_group(r.groups@[3], "Wikipedia"@, 7),
            plain_mapping(r.groups@[3].mappings@[0], "wikipedia.org"@),
            plain_mapping(r.groups@[3].mappings@[1], "zh.wikipedia.org"@),
            plain_mapping(r.groups@[3].mappings@[2], "en.wikipedia.org"@),
            plain_mapping(r.groups@[3].mappings@[3], "wikimedia.org"@),
            plain_mapping(r.groups@[3].mappings@[4], "login.wikimedia.org"@),
            plain_mapping(r.groups@[3].mappings@[5], "upload.wikimedia.org"@),
            plain_mapping(r.groups@[3].mappings@[6], "maps.wikimedia.org"@),
            plain_group(r.groups@[4], "Pixiv"@, 4),
            fronted_mapping(r.groups@[4].mappings@[0], "pixiv.net"@, "www.fanbox.cc"@),
            fronted_mapping(r.groups@[4].mappings@[1], "www.pixiv.net"@, "www.fanbox.cc"@),
            fronted_mapping(r.groups@[4].mappings@[2], "accounts.pixiv.net"@, "www.fanbox.cc"@),
            fronted_mapping(r.groups@[4].mappings@[3], "i.pximg.net"@, "s.pximg.net"@),
            nosni_group(r.groups@[5], "Twich"@, 5),
            plain_mapping(r.groups@[5].mappings@[0], "twitch.tv"@),
            plain_mapping(r.groups@[5].mappings@[1], "www.twitch.tv"@),
            plain_mapping(r.groups@[5].mappings@[2], "static.twitchcdn.net"@),
            plain_mapping(r.groups@[5].mappings@[3], "gql.twitch.tv"@),
            plain_mapping(r.groups@[5].mappings@[4], "passport.twitch.tv"@),
    {
        Config::new(
            vec![
                Group::new(
                    "Duckduckgo",
                    vec![
                        Mapping::new("duck.com"),
                        Mapping::new("duckduckgo.com"),
                        Mapping::new("external-content.duckduckgo.com"),
                        Mapping::new("links.duckduckgo.com"),
                    ],
                ),
                Group::new(
                    "Github",
                    vec![
                        Mapping::new("avatars.githubusercontent.com"),
                        Mapping::new("avatars0.githubusercontent.com"),
                        Mapping::new("avatars1.githubusercontent.com"),
                        Mapping::new("avatars2.githubusercontent.com"),
                        Mapping::new("avatars3.githubusercontent.com"),
                        Mapping::new("camo.githubusercontent.com"),
                        Mapping::new("cloud.githubusercontent.com"),
                        Mapping::new("gist.github.com"),
                        Mapping::new("gist.githubusercontent.com"),
                        Mapping::new("github.com"),
                        Mapping::new("github.githubassets.com"),
                        Mapping::new("objects.githubusercontent.com"),
                        Mapping::new("raw.githubusercontent.com"),
                        Mapping::new("user-images.githubusercontent.com"),
                    ],
                ).disable_sni(),
                Group::new(
                    "OneDrive",
                    vec![
                        Mapping::new("onedrive.com"),
                        Mapping::new("api.onedrive.com"),
                        Mapping::new("onedrive.live.com"),
                        Mapping::new("skyapi.onedrive.live.com"),
                    ],
                ),
                Group::new(
                    "Wikipedia",
                    vec![
                        Mapping::new("wikipedia.org"),
                        Mapping::new("zh.wikipedia.org"),
                        Mapping::new("en.wikipedia.org"),
                        Mapping::new("wikimedia.org"),
                        Mapping::new("login.wikimedia.org"),
                        Mapping::new("upload.wikimedia.org"),
                        Mapping::new("maps.wikimedia.org"),
                    ],
                ).disable_sni(),
                Group::new(
                    "Pixiv",
                    vec![
                        Mapping::new("pixiv.net").override_sni("www.fanbox.cc"),
                        Mapping::new("www.pixiv.net").override_sni("www.fanbox.cc"),
                        Mapping::new("accounts.pixiv.net").override_sni("www.fanbox.cc"),
                        Mapping::new("i.pximg.net").override_sni("s.pximg.net"),
                    ],
                ),
                Group::new(
                    "Twich",
                    vec![
                        Mapping::new("twitch.tv"),
                        Mapping::new("www.twitch.tv"),
                        Mapping::new("static.twitchcdn.net"),
                        Mapping::new("gql.twitch.tv"),
                        Mapping::new("passport.twitch.tv"),
                    ],
                ).disable_sni(),
            ],
        )
    }
}

} // verus!
