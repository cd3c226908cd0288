//! The settings that a configuration file may give, and how its text is read.
//!
//! The text holds one `KEY=VALUE` pair per line, without quotation marks. A
//! line without `=`, or with nothing after it, is ignored, as is a key that
//! names no setting; a later line replaces an earlier one.
use vstd::prelude::*;
use crate::args::opt_view;
use crate::text::{
    before_suffix, bool_literal, first_index, parse_bool, parse_u16, parse_u32, parsed_u16,
    parsed_u32, pieces, split_on, split_once_char, str_equals, string_views,
};

verus! {

/// Settings for hosting and connecting; `None` where the file says nothing.
pub struct Config {
    pub host_ip: Option<String>,
    pub host_port: Option<u16>,
    pub connect_ip: Option<String>,
    pub connect_port: Option<u16>,
    /// seconds
    pub write_timeout: Option<u32>,
    /// seconds
    pub read_timeout: Option<u32>,
    pub auto_accept: Option<bool>,
}

/// What a [`Config`] holds.
pub struct ConfigModel {
    pub host_ip: Option<Seq<char>>,
    pub host_port: Option<u16>,
    pub connect_ip: Option<Seq<char>>,
    pub connect_port: Option<u16>,
    pub write_timeout: Option<u32>,
    pub read_timeout: Option<u32>,
    pub auto_accept: Option<bool>,
}

impl View for Config {
    type V = ConfigModel;

    open spec fn view(&self) -> ConfigModel {
        ConfigModel {
            host_ip: opt_view(self.host_ip),
            host_port: self.host_port,
            connect_ip: opt_view(self.connect_ip),
            connect_port: self.connect_port,
            write_timeout: self.write_timeout,
            read_timeout: self.read_timeout,
            auto_accept: self.auto_accept,
        }
    }
}

pub open spec fn empty_config() -> ConfigModel {
    ConfigModel {
        host_ip: None,
        host_port: None,
        connect_ip: None,
        connect_port: None,
        write_timeout: None,
        read_timeout: None,
        auto_accept: None,
    }
}

/// `l` without one carriage return at its end.
pub open spec fn drop_cr(l: Seq<char>) -> Seq<char> {
    if l.len() > 0 && l.last() == '\r' {
        l.drop_last()
    } else {
        l
    }
}

/// The lines of `s`: split at `\n`, a final empty line dropped, and a `\r`
/// before a line's end removed.
pub open spec fn text_lines(s: Seq<char>) -> Seq<Seq<char>> {
    let p = pieces(s, '\n');
    let q = if p.last().len() == 0 {
        p.drop_last()
    } else {
        p
    };
    q.map_values(|l: Seq<char>| drop_cr(l))
}

/// `c` with the setting `key` set to `value`; `None` where the value of a
/// numeric or boolean setting does not parse.
pub open spec fn apply_setting(c: ConfigModel, key: Seq<char>, value: Seq<char>) -> Option<
    ConfigModel,
> {
    if key == "host"@ {
        Some(ConfigModel { host_ip: Some(value), ..c })
    } else if key == "connect"@ {
        Some(ConfigModel { connect_ip: Some(value), ..c })
    } else if key == "host_port"@ {
        match parsed_u16(value) {
            Some(p) => Some(ConfigModel { host_port: Some(p), ..c }),
            None => None,
        }
    } else if key == "connect_port"@ {
        match parsed_u16(value) {
            Some(p) => Some(ConfigModel { connect_port: Some(p), ..c }),
            None => None,
        }
    } else if key == "host_auto_accept"@ {
        match bool_literal(value) {
            Some(b) => Some(ConfigModel { auto_accept: Some(b), ..c }),
            None => None,
        }
    } else if key == "read_timeout"@ {
        match parsed_u32(value) {
            Some(t) => Some(ConfigModel { read_timeout: Some(t), ..c }),
            None => None,
        }
    } else if key == "write_timeout"@ {
        match parsed_u32(value) {
            Some(t) => Some(ConfigModel { write_timeout: Some(t), ..c }),
            None => None,
        }
    } else {
        Some(c)
    }
}

/// `c` after one line: the key stands before the first `=`, the value after it.
pub open spec fn apply_line(c: ConfigModel, line: Seq<char>) -> Option<ConfigModel> {
    let k = first_index(line, '=');
    if k + 1 >= line.len() {
        Some(c)
    } else {
        apply_setting(c, line.take(k), line.skip(k + 1))
    }
}

/// `c` after all of `lines`, in order.
pub open spec fn apply_lines(c: ConfigModel, lines: Seq<Seq<char>>) -> Option<ConfigModel>
    decreases lines.len(),
{
    if lines.len() == 0 {
        Some(c)
    } else {
        match apply_line(c, lines[0]) {
            Some(next) => apply_lines(next, lines.drop_first()),
            None => None,
        }
    }
}

proof fn lemma_pieces_nonempty(s: Seq<char>, sep: char)
    ensures
        pieces(s, sep).len() >= 1,
    decreases s.len(),
{
    if s.len() > 0 {
        lemma_pieces_nonempty(s.drop_last(), sep);
    }
}

proof fn lemma_first_index_bounds(s: Seq<char>, c: char)
    ensures
        0 <= first_index(s, c) <= s.len(),
    decreases s.len(),
{
    if s.len() > 0 && s[0] != c {
        lemma_first_index_bounds(s.drop_first(), c);
    }
}

impl Config {
    /// Settings with nothing set.
    pub fn empty() -> (r: Self)
        ensures
            r@ == empty_config(),
    {
        Self {
            host_ip: None,
            host_port: None,
            connect_ip: None,
            connect_port: None,
            write_timeout: None,
            read_timeout: None,
            auto_accept: None,
        }
    }

    /// The settings that the text of a configuration file gives; `None` where
    /// the value of a numeric or boolean setting does not parse.
    pub fn parse_text(content: &str) -> (r: Option<Self>)
        ensures
            match r {
                Some(c) => apply_lines(empty_config(), text_lines(content@)) == Some(c@),
                None => apply_lines(empty_config(), text_lines(content@)) is None,
            },
    {
        let lines = split_on(content, '\n');
        let ghost ps = pieces(content@, '\n');
        let ghost ls = text_lines(content@);
        proof {
            lemma_pieces_nonempty(content@, '\n');
        }
        assert(string_views(lines@)[lines@.len() - 1] == lines@[lines@.len() - 1]@);
        let mut n = lines.len();
        if lines[n - 1].as_str().is_empty() {
            n = n - 1;
        }
        assert(ls.len() == n);
        let mut config = Config::empty();
        let mut i: usize = 0;
        assert(ls.skip(0) =~= ls);
        while i < n
            invariant
                n <= lines@.len(),
                ls.len() == n,
                ls == text_lines(content@),
                ps == pieces(content@, '\n'),
                string_views(lines@) == ps,
                forall|k: int| 0 <= k < n ==> ls[k] == drop_cr(#[trigger] ps[k]),
                i <= n,
                apply_lines(empty_config(), ls) == apply_lines(config@, ls.skip(i as int)),
            decreases n - i,
        {
            assert(ls.skip(i as int).drop_first() =~= ls.skip(i + 1));
            assert(ls.skip(i as int)[0] == ls[i as int]);
            assert(string_views(lines@)[i as int] == lines@[i as int]@);
            let raw = lines[i].as_str();
            let cr = "\r";
            proof {
                reveal_strlit("\r");
                assert(cr@ =~= seq!['\r']);
                assert(raw@ == ps[i as int]);
                if raw@.len() > 0 && raw@.last() == '\r' {
                    assert(raw@.skip(raw@.len() - 1) =~= seq!['\r']);
                    assert(raw@.take(raw@.len() - 1) =~= raw@.drop_last());
                } else if raw@.len() > 0 {
                    assert(raw@.skip(raw@.len() - 1)[0] == raw@.last());
                }
            }
            let line = match before_suffix(raw, cr) {
                Some(l) => l,
                None => raw,
            };
            assert(line@ == ls[i as int]);
            proof {
                lemma_first_index_bounds(line@, '=');
            }
            match split_once_char(line, '=') {
                None => {},
                Some(parts) => {
                    let key = parts.0;
                    let value = parts.1;
                    if !value.is_empty() {
                        match Self::set(config, key, value) {
                            Some(next) => config = next,
                            None => {
                                return None;
                            },
                        }
                    }
                },
            }
            i = i + 1;
        }
        Some(config)
    }

    /// `self` with the setting `key` set to `value`.
    fn set(self, key: &str, value: &str) -> (r: Option<Self>)
        ensures
            match r {
                Some(c) => apply_setting(self@, key@, value@) == Some(c@),
                None => apply_setting(self@, key@, value@) is None,
            },
    {
        let mut c = self;
        if str_equals(key, "host") {
            c.host_ip = Some(value.to_owned());
        } else if str_equals(key, "connect") {
            c.connect_ip = Some(value.to_owned());
        } else if str_equals(key, "host_port") {
            match parse_u16(value) {
                Some(p) => c.host_port = Some(p),
                None => {
                    return None;
                },
            }
        } else if str_equals(key, "connect_port") {
            match parse_u16(value) {
                Some(p) => c.connect_port = Some(p),
                None => {
                    return None;
                },
            }
        } else if str_equals(key, "host_auto_accept") {
            match parse_bool(value) {
                Some(b) => c.auto_accept = Some(b),
                None => {
                    return None;
                },
            }
        } else if str_equals(key, "read_timeout") {
            match parse_u32(value) {
                Some(t) => c.read_timeout = Some(t),
                None => {
                    return None;
                },
            }
        } else if str_equals(key, "write_timeout") {
            match parse_u32(value) {
                Some(t) => c.write_timeout = Some(t),
                None => {
                    return None;
                },
            }
        }
        Some(c)
    }
}

} // verus!
