//! User configuration data: the default port, window geometry, recent
//! ports and the theme. Loading from and saving to disk live outside the
//! library; here are the data type, its defaults, and the recent-port
//! bookkeeping.

use vstd::prelude::*;

verus! {

/// The colour theme the interface follows.
#[derive(Clone, Copy, Debug, PartialEq, Eq, Structural)]
pub enum Theme {
    Light,
    Dark,
    System,
}

/// The user's preferences for one installation.
#[derive(Debug)]
pub struct AppConfig {
    /// The port offered when none is typed.
    pub default_port: u16,
    /// Start from the default port rather than the last input.
    pub use_default_port: bool,
    /// Open the browser as soon as the application starts.
    pub auto_launch: bool,
    /// Close the window once the browser has been opened.
    pub auto_close: bool,
    /// Window width in pixels.
    pub window_width: u32,
    /// Window height in pixels.
    pub window_height: u32,
    /// Recently used ports, oldest first.
    pub recent_ports: Vec<u16>,
    /// The selected theme.
    pub theme: Theme,
}

/// Whether the list holds the port.
fn has_port(v: &Vec<u16>, port: u16) -> (r: bool)
    ensures
        r == v@.contains(port),
{
    let mut i: usize = 0;
    while i < v.len()
        invariant
            i <= v.len(),
            forall|k: int| 0 <= k < i ==> v@[k] != port,
        decreases v.len() - i,
    {
        if v[i] == port {
            return true;
        }
        i += 1;
    }
    false
}

/// Copy a port list element by element.
fn copy_port_list(v: &Vec<u16>) -> (r: Vec<u16>)
    ensures
        r@ == v@,
{
    let mut r: Vec<u16> = Vec::new();
    let mut i: usize = 0;
    while i < v.len()
        invariant
            i <= v.len(),
            r@ == v@.take(i as int),
        decreases v.len() - i,
    {
        r.push(v[i]);
        proof {
            assert(v@.take(i + 1) =~= v@.take(i as int).push(v@[i as int]));
        }
        i += 1;
    }
    proof {
        assert(v@.take(v@.len() as int) =~= v@);
    }
    r
}

/// The recent-port list of the default configuration.
pub open spec fn default_recent_ports() -> Seq<u16> {
    seq![3000u16, 8080u16, 5173u16, 3001u16, 4200u16]
}

/// The common local development ports offered besides the recent ones.
pub open spec fn common_dev_ports() -> Seq<u16> {
    seq![3000u16, 8080u16, 5173u16, 3001u16, 4200u16, 8000u16, 9000u16, 5500u16]
}

/// A recent-port list after one more use of `port`: unchanged when the
/// port is already present, else extended at the back, dropping the
/// oldest entry once more than ten would be kept.
pub open spec fn add_recent_spec(ports: Seq<u16>, port: u16) -> Seq<u16> {
    if ports.contains(port) {
        ports
    } else if ports.len() + 1 > 10 {
        ports.push(port).remove(0)
    } else {
        ports.push(port)
    }
}

/// `ports` topped up, in order, with those common development ports that
/// are not yet present, while fewer than fifteen entries are held.
pub open spec fn with_common_ports(ports: Seq<u16>, commons: Seq<u16>) -> Seq<u16>
    decreases commons.len(),
{
    if commons.len() == 0 {
        ports
    } else {
        let next = if !ports.contains(commons[0]) && ports.len() < 15 {
            ports.push(commons[0])
        } else {
            ports
        };
        with_common_ports(next, commons.drop_first())
    }
}

/// At most the first fifteen entries.
pub open spec fn cap_fifteen(s: Seq<u16>) -> Seq<u16> {
    if s.len() <= 15 {
        s
    } else {
        s.take(15)
    }
}

impl Default for AppConfig {
    /// The configuration used when none is stored: port 8080, a 400 by
    /// 500 window, the system theme, and the usual development ports as
    /// recent entries.
    fn default() -> (c: Self)
        ensures
            c.default_port == 8080,
            c.use_default_port,
            !c.auto_launch,
            !c.auto_close,
            c.window_width == 400,
            c.window_height == 500,
            c.recent_ports@ == default_recent_ports(),
            c.theme == Theme::System,
    {
        let mut recent: Vec<u16> = Vec::new();
        recent.push(3000);
        recent.push(8080);
        recent.push(5173);
        recent.push(3001);
        recent.push(4200);
        proof {
            assert(recent@ =~= default_recent_ports());
        }
        AppConfig {
            default_port: 8080,
            use_default_port: true,
            auto_launch: false,
            auto_close: false,
            window_width: 400,
            window_height: 500,
            recent_ports: recent,
            theme: Theme::System,
        }
    }
}

impl Clone for AppConfig {
    /// An exact copy of the configuration.
    fn clone(&self) -> (c: Self)
        ensures
            c.default_port == self.default_port,
            c.use_default_port == self.use_default_port,
            c.auto_launch == self.auto_launch,
            c.auto_close == self.auto_close,
            c.window_width == self.window_width,
            c.window_height == self.window_height,
            c.recent_ports@ == self.recent_ports@,
            c.theme == self.theme,
    {
        AppConfig {
            default_port: self.default_port,
            use_default_port: self.use_default_port,
            auto_launch: self.auto_launch,
            auto_close: self.auto_close,
            window_width: self.window_width,
            window_height: self.window_height,
            recent_ports: copy_port_list(&self.recent_ports),
            theme: self.theme,
        }
    }
}

impl AppConfig {
    /// The default configuration, without touching any stored file.
    pub fn load_default() -> (c: Self)
        ensures
            c.default_port == 8080,
            c.use_default_port,
            !c.auto_launch,
            !c.auto_close,
            c.window_width == 400,
            c.window_height == 500,
            c.recent_ports@ == default_recent_ports(),
            c.theme == Theme::System,
    {
        Self::default()
    }

    /// Record one more use of `port` in the recent list; every other
    /// field is untouched.
    pub fn add_quick_port(&mut self, port: u16)
        ensures
            final(self).recent_ports@ == add_recent_spec(old(self).recent_ports@, port),
            final(self).default_port == old(self).default_port,
            final(self).use_default_port == old(self).use_default_port,
            final(self).auto_launch == old(self).auto_launch,
            final(self).auto_close == old(self).auto_close,
            final(self).window_width == old(self).window_width,
            final(self).window_height == old(self).window_height,
            final(self).theme == old(self).theme,
    {
        if !has_port(&self.recent_ports, port) {
            self.recent_ports.push(port);
            if self.recent_ports.len() > 10 {
                self.recent_ports.remove(0);
            }
        }
    }

    /// The ports offered as quick choices: the recent ones, topped up
    /// with common development ports, capped at fifteen.
    pub fn quick_ports(&self) -> (r: Vec<u16>)
        ensures
            r@ == cap_fifteen(with_common_ports(self.recent_ports@, common_dev_ports())),
    {
        let mut ports = copy_port_list(&self.recent_ports);
        let mut commons: Vec<u16> = Vec::new();
        commons.push(3000);
        commons.push(8080);
        commons.push(5173);
        commons.push(3001);
        commons.push(4200);
        commons.push(8000);
        commons.push(9000);
        commons.push(5500);
        proof {
            assert(commons@ =~= common_dev_ports());
            assert(common_dev_ports().skip(0) =~= common_dev_ports());
        }
        let n = commons.len();
        let mut i: usize = 0;
        while i < n
            invariant
                i <= n,
                n == 8,
                commons@ == common_dev_ports(),
                with_common_ports(self.recent_ports@, common_dev_ports()) == with_common_ports(
                    ports@,
                    common_dev_ports().skip(i as int),
                ),
            decreases n - i,
        {
            let ghost tail = common_dev_ports().skip(i as int);
            proof {
                assert(tail[0] == common_dev_ports()[i as int]);
                assert(tail.drop_first() =~= common_dev_ports().skip(i + 1));
            }
            if ports.len() < 15 && !has_port(&ports, commons[i]) {
                ports.push(commons[i]);
            }
            i += 1;
        }
        proof {
            assert(common_dev_ports().skip(8) =~= Seq::<u16>::empty());
        }
        if ports.len() > 15 {
            ports.truncate(15);
        }
        ports
    }
}

} // verus!
