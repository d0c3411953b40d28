use vstd::prelude::*;
use crate::strings::{char_at, char_len, opt_view, owned, starts_with, str_eq, substring};

verus! {

/// `Path::join` on Unix: an absolute `rest` replaces `base`; otherwise a `/` is
/// put between them unless `base` is empty or already ends in `/`.
pub open spec fn path_join_spec(base: Seq<char>, rest: Seq<char>) -> Seq<char> {
    if rest.len() > 0 && rest[0] == '/' {
        rest
    } else if base.len() == 0 || base.last() == '/' {
        base + rest
    } else {
        base + seq!['/'] + rest
    }
}

/// `base` joined with `rest` as `Path::join` joins them.
pub fn path_join(base: &str, rest: &str) -> (r: String)
    ensures
        r@ == path_join_spec(base@, rest@),
{
    let nb = char_len(base);
    let nr = char_len(rest);
    if nr > 0 && char_at(rest, 0) == '/' {
        return owned(rest);
    }
    let mut r = owned(base);
    if nb != 0 && char_at(base, nb - 1) != '/' {
        r.append("/");
        assert(r@ == base@ + seq!['/']) by {
            reveal_strlit("/");
            assert("/"@ =~= seq!['/']);
        }
    }
    r.append(rest);
    r
}

/// Leading `~` or `~/` replaced by the home directory, when it is known.
pub open spec fn expand_tilde_spec(s: Seq<char>, home: Option<Seq<char>>) -> Seq<char> {
    if s == "~"@ {
        match home {
            Some(h) => h,
            None => s,
        }
    } else if "~/"@.is_prefix_of(s) {
        match home {
            Some(h) => path_join_spec(h, s.skip(2)),
            None => s,
        }
    } else {
        s
    }
}

/// Expand a leading `~/` or a lone `~` to `home`.
pub fn expand_tilde(s: &str, home: &Option<String>) -> (r: String)
    ensures
        r@ == expand_tilde_spec(s@, opt_view(*home)),
{
    if str_eq(s, "~") {
        match home {
            Some(h) => owned(h.as_str()),
            None => owned(s),
        }
    } else if starts_with(s, "~/") {
        match home {
            Some(h) => {
                proof {
                    reveal_strlit("~/");
                }
                let rest = substring(s, 2, char_len(s));
                assert(rest@ =~= s@.skip(2));
                path_join(h.as_str(), rest.as_str())
            },
            None => owned(s),
        }
    } else {
        owned(s)
    }
}

/// Only a lone `~` and a leading `~/` are expanded, and only when the home
/// directory is known: `~user/x`, `a/~/b` and every other path stay as they are.
pub proof fn lemma_expand_tilde_cases(s: Seq<char>, home: Option<Seq<char>>)
    ensures
        (s.len() == 0 || s[0] != '~') ==> expand_tilde_spec(s, home) == s,
        (s.len() >= 2 && s[0] == '~' && s[1] != '/') ==> expand_tilde_spec(s, home) == s,
        home is None ==> expand_tilde_spec(s, home) == s,
        (s == seq!['~'] && home is Some) ==> expand_tilde_spec(s, home) == home->0,
        (s.len() >= 2 && s[0] == '~' && s[1] == '/' && home is Some) ==> expand_tilde_spec(s, home)
            == path_join_spec(home->0, s.skip(2)),
{
    reveal_strlit("~");
    reveal_strlit("~/");
    if s.len() >= 2 && s[0] == '~' && s[1] == '/' {
        assert("~/"@ =~= s.subrange(0, 2));
        assert(s != "~"@);
    }
    if "~/"@.is_prefix_of(s) {
        assert(s[0] == s.subrange(0, 2)[0]);
        assert(s[1] == s.subrange(0, 2)[1]);
    }
    if s == seq!['~'] {
        assert(s =~= "~"@);
    }
    if s == "~"@ {
        assert(s.len() == 1 && s[0] == '~');
    }
}

/// Expand a leading `~` to `home`. No glob support: one pattern gives one path.
pub fn expand(pattern: &str, home: &Option<String>) -> (r: Vec<String>)
    ensures
        r@.len() == 1,
        r@[0]@ == expand_tilde_spec(pattern@, opt_view(*home)),
{
    vec![expand_tilde(pattern, home)]
}

/// The configuration directory: `$XDG_CONFIG_HOME` when set and not empty, else
/// `$HOME/.config`, else `~/.config`.
pub open spec fn config_dir_spec(xdg: Option<Seq<char>>, home: Option<Seq<char>>) -> Seq<char> {
    match xdg {
        Some(d) if d.len() > 0 => d,
        _ => match home {
            Some(h) => path_join_spec(h, ".config"@),
            None => "~/.config"@,
        },
    }
}

/// The configuration directory given `$XDG_CONFIG_HOME` and `$HOME`.
pub fn config_dir(xdg: &Option<String>, home: &Option<String>) -> (r: String)
    ensures
        r@ == config_dir_spec(opt_view(*xdg), opt_view(*home)),
{
    if let Some(d) = xdg {
        if char_len(d.as_str()) > 0 {
            return owned(d.as_str());
        }
    }
    match home {
        Some(h) => path_join(h.as_str(), ".config"),
        None => owned("~/.config"),
    }
}

/// The file `name` of this tool's directory below `config_dir`.
pub open spec fn tool_file_spec(config_dir: Seq<char>, name: Seq<char>) -> Seq<char> {
    path_join_spec(path_join_spec(config_dir, "nnn"@), name)
}

/// The global config file, `<config dir>/nnn/config.toml`.
pub fn global_config_path(config_dir: &str) -> (r: String)
    ensures
        r@ == tool_file_spec(config_dir@, "config.toml"@),
{
    let d = path_join(config_dir, "nnn");
    path_join(d.as_str(), "config.toml")
}

/// The store of approved project configs, `<config dir>/nnn/trusted.toml`.
pub fn trust_store_path(config_dir: &str) -> (r: String)
    ensures
        r@ == tool_file_spec(config_dir@, "trusted.toml"@),
{
    let d = path_join(config_dir, "nnn");
    path_join(d.as_str(), "trusted.toml")
}

} // verus!
