use vstd::prelude::*;
use vstd::string::*;
use crate::strings::{char_at, char_len, join, join_spec, owned, split_spec, starts_with, str_eq, str_views, substring, views};

verus! {

/// Which commands may be started inside the sandbox.
pub struct CommandConfig {
    /// Command prefixes that are always allowed; they take precedence over every deny rule.
    pub allow: Vec<String>,
    /// Command prefixes that the user denies.
    pub deny: Vec<String>,
    /// Whether the built-in deny list applies; `None` means it does.
    pub default_denied: Option<bool>,
}

impl CommandConfig {
    pub open spec fn uses_default_denied(&self) -> bool {
        match self.default_denied {
            Some(b) => b,
            None => true,
        }
    }

    /// Whether the built-in deny list applies.
    pub fn use_default_denied_commands(&self) -> (b: bool)
        ensures
            b == self.uses_default_denied(),
    {
        match self.default_denied {
            Some(b) => b,
            None => true,
        }
    }
}

/// The built-in deny list.
pub open spec fn default_denied_spec() -> Seq<Seq<char>> {
    seq![
        "shutdown"@, "reboot"@, "halt"@, "poweroff"@, "init 0"@, "init 6"@,
        "systemctl poweroff"@, "systemctl reboot"@, "systemctl halt"@,
        "insmod"@, "rmmod"@, "modprobe"@, "kexec"@,
        "mkfs"@, "mkfs.ext2"@, "mkfs.ext3"@, "mkfs.ext4"@, "mkfs.xfs"@, "mkfs.btrfs"@,
        "mkfs.vfat"@, "mkfs.ntfs"@, "fdisk"@, "parted"@, "dd if="@,
        "docker run -v /:/"@, "docker run --privileged"@,
        "chroot"@, "unshare"@, "nsenter"@,
    ]
}

/// Commands blocked by default: system control, kernel modules, disk tools,
/// container and namespace escapes.
pub fn default_denied() -> (r: Vec<&'static str>)
    ensures
        str_views(r@) == default_denied_spec(),
{
    let r = vec![
        // System control
        "shutdown", "reboot", "halt", "poweroff", "init 0", "init 6",
        "systemctl poweroff", "systemctl reboot", "systemctl halt",
        // Kernel/module manipulation
        "insmod", "rmmod", "modprobe", "kexec",
        // Disk/partition manipulation
        "mkfs", "mkfs.ext2", "mkfs.ext3", "mkfs.ext4", "mkfs.xfs", "mkfs.btrfs",
        "mkfs.vfat", "mkfs.ntfs", "fdisk", "parted", "dd if=",
        // Container escape vectors
        "docker run -v /:/", "docker run --privileged",
        // Chroot/namespace escape
        "chroot", "unshare", "nsenter",
    ];
    assert(str_views(r@) =~= default_denied_spec());
    r
}

/// A path component that names something (not empty, not `.`).
pub open spec fn is_named(p: Seq<char>) -> bool {
    p.len() > 0 && p != seq!['.']
}

pub open spec fn named() -> spec_fn(Seq<char>) -> bool {
    |p: Seq<char>| is_named(p)
}

/// The components of a path that name something, in order.
pub open spec fn path_components(s: Seq<char>) -> Seq<Seq<char>> {
    split_spec(s, '/').filter(named())
}

/// The final component of a path, unless the path ends in `..` or names nothing
/// (the behaviour of `Path::file_name`).
pub open spec fn file_name(s: Seq<char>) -> Option<Seq<char>> {
    let c = path_components(s);
    if c.len() == 0 || c.last() == seq!['.', '.'] {
        None
    } else {
        Some(c.last())
    }
}

/// A command reduced to its base name; unchanged when it has none.
pub open spec fn normalize_spec(cmd: Seq<char>) -> Seq<char> {
    match file_name(cmd) {
        Some(n) => n,
        None => cmd,
    }
}

/// A command matches a rule when it equals the rule or starts with the rule and a space.
pub open spec fn matches_prefix_spec(command: Seq<char>, prefix: Seq<char>) -> bool {
    command == prefix || prefix.push(' ').is_prefix_of(command)
}

/// A rule hits when the whole command line or the base name of the program matches it.
pub open spec fn hits(full: Seq<char>, normalized: Seq<char>, rule: Seq<char>) -> bool {
    matches_prefix_spec(full, rule) || matches_prefix_spec(normalized, rule)
}

pub open spec fn any_hit(rules: Seq<Seq<char>>, full: Seq<char>, normalized: Seq<char>) -> bool {
    exists|j: int| 0 <= j < rules.len() && hits(full, normalized, #[trigger] rules[j])
}

/// `j` is the first rule of `rules` that hits.
pub open spec fn first_hit(rules: Seq<Seq<char>>, full: Seq<char>, normalized: Seq<char>, j: int) -> bool {
    &&& 0 <= j < rules.len()
    &&& hits(full, normalized, rules[j])
    &&& forall|k: int| 0 <= k < j ==> !hits(full, normalized, #[trigger] rules[k])
}

/// The `{:?}` rendering of a string.
pub uninterp spec fn debug_str(s: Seq<char>) -> Seq<char>;

/// Printable ASCII other than the double quote and the backslash: shown as itself by `{:?}`.
pub open spec fn is_plain_char(c: char) -> bool {
    ' ' <= c <= '~' && c != '"' && c != '\\'
}

/// The message of a refusal, naming the command line and the rule it matched.
pub open spec fn blocked_message(full: Seq<char>, rule: Seq<char>, built_in: bool) -> Seq<char> {
    "command blocked: "@ + full + (if built_in {
        " (matches default deny rule: "@
    } else {
        " (matches deny rule: "@
    }) + debug_str(rule) + ")"@
}

/// `{:?}` of a string: the quoted, escaped string.
#[verifier::external_body]
fn debug_format(s: &str) -> (r: String)
    ensures
        r@ == debug_str(s@),
        (forall|i: int| 0 <= i < s@.len() ==> is_plain_char(#[trigger] s@[i])) ==> r@ == seq!['"'] + s@ + seq!['"'],
{
    format!("{:?}", s)
}

proof fn lemma_dot_piece(s: Seq<char>, a: int, b: int)
    requires
        0 <= a <= b <= s.len(),
    ensures
        is_named(s.subrange(a, b)) == (b - a > 0 && !(b - a == 1 && s[a] == '.')),
{
    let p = s.subrange(a, b);
    if b - a == 1 {
        assert(p[0] == s[a]);
        if p == seq!['.'] {
            assert(p[0] == '.');
        }
        if s[a] == '.' {
            assert(p =~= seq!['.']);
        }
    } else {
        assert(p.len() != seq!['.'].len());
    }
}

/// Base name of a command: strip the directory part.
fn normalize(cmd: &str) -> (r: String)
    ensures
        r@ == normalize_spec(cmd@),
{
    let n = char_len(cmd);
    let ghost mut done: Seq<Seq<char>> = Seq::empty();
    let mut start: usize = 0;
    let mut has_last = false;
    let mut last_start: usize = 0;
    let mut last_end: usize = 0;
    let mut i: usize = 0;
    assert(cmd@.take(0) =~= Seq::<char>::empty());
    assert(cmd@.subrange(0, 0) =~= Seq::<char>::empty());
    assert(done.filter(named()) =~= Seq::<Seq<char>>::empty()) by {
        reveal(Seq::filter);
    }
    while i < n
        invariant
            n == cmd@.len(),
            start <= i <= n,
            split_spec(cmd@.take(i as int), '/') =~= done.push(cmd@.subrange(start as int, i as int)),
            has_last ==> {
                &&& last_start <= last_end <= n
                &&& done.filter(named()).len() > 0
                &&& done.filter(named()).last() == cmd@.subrange(last_start as int, last_end as int)
            },
            !has_last ==> done.filter(named()).len() == 0,
        decreases n - i,
    {
        let c = char_at(cmd, i);
        let ghost cur = cmd@.subrange(start as int, i as int);
        let ghost before = split_spec(cmd@.take(i as int), '/');
        assert(cmd@.take(i + 1).drop_last() =~= cmd@.take(i as int));
        assert(cmd@.take(i + 1).last() == c);
        if c == '/' {
            let len = i - start;
            let is_dot = len == 1 && char_at(cmd, start) == '.';
            proof {
                lemma_dot_piece(cmd@, start as int, i as int);
            }
            proof {
                done.lemma_filter_push(cur, named());
                done = done.push(cur);
            }
            if len > 0 && !is_dot {
                has_last = true;
                last_start = start;
                last_end = i;
            }
            start = i + 1;
            assert(cmd@.subrange(i + 1, i + 1) =~= Seq::<char>::empty());
            assert(split_spec(cmd@.take(i + 1), '/') == before.push(Seq::empty()));
        } else {
            assert(cmd@.subrange(start as int, i + 1) =~= cur.push(c));
            assert(split_spec(cmd@.take(i + 1), '/') == before.update(before.len() - 1, cur.push(c)));
        }
        i = i + 1;
    }
    assert(cmd@.take(n as int) =~= cmd@);
    let ghost cur = cmd@.subrange(start as int, n as int);
    proof {
        done.lemma_filter_push(cur, named());
    }
    let len = n - start;
    let is_dot = len == 1 && char_at(cmd, start) == '.';
    proof {
        lemma_dot_piece(cmd@, start as int, n as int);
    }
    if len > 0 && !is_dot {
        has_last = true;
        last_start = start;
        last_end = n;
    }
    if !has_last {
        return owned(cmd);
    }
    let is_dotdot = last_end - last_start == 2 && char_at(cmd, last_start) == '.'
        && char_at(cmd, last_start + 1) == '.';
    let ghost name = cmd@.subrange(last_start as int, last_end as int);
    assert(is_dotdot == (name == seq!['.', '.'])) by {
        if name == seq!['.', '.'] {
            assert(name[0] == cmd@[last_start as int]);
            assert(name[1] == cmd@[last_start + 1]);
        }
        if is_dotdot {
            assert(name =~= seq!['.', '.']);
        }
    }
    if is_dotdot {
        owned(cmd)
    } else {
        substring(cmd, last_start, last_end)
    }
}

/// Whether `command` equals `prefix` or starts with `prefix` followed by a space.
fn matches_prefix(command: &str, prefix: &str) -> (b: bool)
    ensures
        b == matches_prefix_spec(command@, prefix@),
{
    if str_eq(command, prefix) {
        return true;
    }
    let n = char_len(command);
    let m = char_len(prefix);
    let b = n > m && starts_with(command, prefix) && char_at(command, m) == ' ';
    proof {
        let p = prefix@.push(' ');
        if b {
            assert(p =~= command@.subrange(0, m + 1));
        }
        if p.is_prefix_of(command@) {
            assert(prefix@ =~= command@.subrange(0, m as int)) by {
                assert forall|k: int| 0 <= k < m implies prefix@[k] == command@[k] by {
                    assert(p[k] == command@.subrange(0, p.len() as int)[k]);
                }
            }
            assert(p[m as int] == command@.subrange(0, p.len() as int)[m as int]);
        }
    }
    b
}

/// Whether `command` may run under `allow`, `deny` and the built-in list.
pub open spec fn check_allows(
    command: Seq<Seq<char>>,
    allow: Seq<Seq<char>>,
    deny: Seq<Seq<char>>,
    use_default: bool,
    warn: bool,
) -> bool {
    command.len() == 0 || {
        let full = join_spec(command, " "@);
        let norm = normalize_spec(command[0]);
        ||| any_hit(allow, full, norm)
        ||| warn
        ||| (!any_hit(deny, full, norm) && !(use_default && any_hit(default_denied_spec(), full, norm)))
    }
}

/// The message of a refusal: the first user deny rule that hits, else the first built-in one.
pub open spec fn is_refusal_message(command: Seq<Seq<char>>, deny: Seq<Seq<char>>, m: Seq<char>) -> bool {
    let full = join_spec(command, " "@);
    let norm = normalize_spec(command[0]);
    ||| exists|j: int| first_hit(deny, full, norm, j) && m == blocked_message(full, deny[j], false)
    ||| (!any_hit(deny, full, norm) && exists|j: int|
        first_hit(default_denied_spec(), full, norm, j) && m == blocked_message(
            full,
            default_denied_spec()[j],
            true,
        ))
}

/// Index of the first rule of `rules` that hits, if any.
fn first_hit_index(rules: &Vec<String>, full: &str, normalized: &str) -> (r: Option<usize>)
    ensures
        match r {
            Some(j) => first_hit(views(rules@), full@, normalized@, j as int),
            None => !any_hit(views(rules@), full@, normalized@),
        },
{
    let ghost rs = views(rules@);
    let mut i: usize = 0;
    while i < rules.len()
        invariant
            i <= rules@.len(),
            rs == views(rules@),
            forall|k: int| 0 <= k < i ==> !hits(full@, normalized@, #[trigger] rs[k]),
        decreases rules@.len() - i,
    {
        let rule = rules[i].as_str();
        assert(rs[i as int] == rule@);
        if matches_prefix(full, rule) || matches_prefix(normalized, rule) {
            return Some(i);
        }
        i = i + 1;
    }
    None
}

/// Index of the first built-in rule that hits, if any.
fn first_default_hit(full: &str, normalized: &str) -> (r: Option<usize>)
    ensures
        match r {
            Some(j) => first_hit(default_denied_spec(), full@, normalized@, j as int),
            None => !any_hit(default_denied_spec(), full@, normalized@),
        },
{
    let rules = default_denied();
    let ghost rs = default_denied_spec();
    let mut i: usize = 0;
    while i < rules.len()
        invariant
            i <= rules@.len(),
            rs == str_views(rules@),
            rs == default_denied_spec(),
            rs.len() == rules@.len(),
            forall|k: int| 0 <= k < i ==> !hits(full@, normalized@, #[trigger] rs[k]),
        decreases rules@.len() - i,
    {
        let rule = rules[i];
        assert(rs[i as int] == rule@);
        if matches_prefix(full, rule) || matches_prefix(normalized, rule) {
            return Some(i);
        }
        i = i + 1;
    }
    None
}

/// The refusal message for the command line `full` and the rule `rule`.
fn blocked(full: &str, rule: &str, built_in: bool) -> (m: String)
    ensures
        m@ == blocked_message(full@, rule@, built_in),
{
    let mut m = owned("command blocked: ");
    m.append(full);
    if built_in {
        m.append(" (matches default deny rule: ");
    } else {
        m.append(" (matches deny rule: ");
    }
    let q = debug_format(rule);
    m.append(q.as_str());
    m.append(")");
    m
}

/// Check whether a command may run. Allow rules take precedence; then the user's
/// deny rules and, unless switched off, the built-in ones. In warn mode a command
/// that would be blocked is let through.
pub fn check(command: &[String], config: &CommandConfig, warn: bool) -> (r: Result<(), String>)
    ensures
        r is Ok <==> check_allows(
            views(command@),
            views(config.allow@),
            views(config.deny@),
            config.uses_default_denied(),
            warn,
        ),
        r matches Err(m) ==> is_refusal_message(views(command@), views(config.deny@), m@),
        (command@.len() > 0 && config.uses_default_denied() && !warn
            && !any_hit(views(config.allow@), join_spec(views(command@), " "@), normalize_spec(views(command@)[0]))
            && any_hit(default_denied_spec(), join_spec(views(command@), " "@), normalize_spec(views(command@)[0])))
            ==> r is Err,
{
    if command.len() == 0 {
        return Ok(());
    }
    let ghost cmd = views(command@);
    assert(cmd[0] == command@[0]@);
    let normalized = normalize(command[0].as_str());
    let full_cmd = join(command, " ");
    if first_hit_index(&config.allow, full_cmd.as_str(), normalized.as_str()).is_some() {
        return Ok(());
    }
    match first_hit_index(&config.deny, full_cmd.as_str(), normalized.as_str()) {
        Some(j) => {
            if warn {
                return Ok(());
            }
            return Err(blocked(full_cmd.as_str(), config.deny[j].as_str(), false));
        },
        None => {},
    }
    if config.use_default_denied_commands() {
        match first_default_hit(full_cmd.as_str(), normalized.as_str()) {
            Some(j) => {
                if warn {
                    return Ok(());
                }
                let rules = default_denied();
                return Err(blocked(full_cmd.as_str(), rules[j], true));
            },
            None => {},
        }
    }
    Ok(())
}

/// The warning for a command that warn mode lets through although a rule blocks it.
pub open spec fn warning_message(full: Seq<char>, rule: Seq<char>, built_in: bool) -> Seq<char> {
    "command would be blocked: "@ + full + (if built_in {
        " (matches default deny: "@
    } else {
        " (matches deny: "@
    }) + debug_str(rule) + ")"@
}

/// The warning names the first user deny rule that hits, else the first built-in one.
pub open spec fn is_warning_message(command: Seq<Seq<char>>, deny: Seq<Seq<char>>, m: Seq<char>) -> bool {
    let full = join_spec(command, " "@);
    let norm = normalize_spec(command[0]);
    ||| exists|j: int| first_hit(deny, full, norm, j) && m == warning_message(full, deny[j], false)
    ||| (!any_hit(deny, full, norm) && exists|j: int|
        first_hit(default_denied_spec(), full, norm, j) && m == warning_message(
            full,
            default_denied_spec()[j],
            true,
        ))
}

/// The warning for `full` and the rule `rule`.
fn would_block(full: &str, rule: &str, built_in: bool) -> (m: String)
    ensures
        m@ == warning_message(full@, rule@, built_in),
{
    let mut m = owned("command would be blocked: ");
    m.append(full);
    if built_in {
        m.append(" (matches default deny: ");
    } else {
        m.append(" (matches deny: ");
    }
    let q = debug_format(rule);
    m.append(q.as_str());
    m.append(")");
    m
}

/// The warning warn mode logs for a command it lets through: `Some` exactly when
/// the command would be blocked outside warn mode, naming the rule that blocks it.
pub fn block_warning(command: &[String], config: &CommandConfig) -> (r: Option<String>)
    ensures
        r is Some <==> !check_allows(
            views(command@),
            views(config.allow@),
            views(config.deny@),
            config.uses_default_denied(),
            false,
        ),
        r matches Some(m) ==> is_warning_message(views(command@), views(config.deny@), m@),
        (command@.len() > 0 && config.uses_default_denied()
            && !any_hit(views(config.allow@), join_spec(views(command@), " "@), normalize_spec(views(command@)[0]))
            && any_hit(default_denied_spec(), join_spec(views(command@), " "@), normalize_spec(views(command@)[0])))
            ==> r is Some,
{
    if command.len() == 0 {
        return None;
    }
    let ghost cmd = views(command@);
    assert(cmd[0] == command@[0]@);
    let normalized = normalize(command[0].as_str());
    let full_cmd = join(command, " ");
    if first_hit_index(&config.allow, full_cmd.as_str(), normalized.as_str()).is_some() {
        return None;
    }
    match first_hit_index(&config.deny, full_cmd.as_str(), normalized.as_str()) {
        Some(j) => {
            return Some(would_block(full_cmd.as_str(), config.deny[j].as_str(), false));
        },
        None => {},
    }
    if config.use_default_denied_commands() {
        match first_default_hit(full_cmd.as_str(), normalized.as_str()) {
            Some(j) => {
                let rules = default_denied();
                return Some(would_block(full_cmd.as_str(), rules[j], true));
            },
            None => {},
        }
    }
    None
}

/// An allow rule takes precedence: a command that an allow rule matches is
/// allowed whatever the deny rules say.
pub proof fn lemma_allow_takes_precedence(
    command: Seq<Seq<char>>,
    allow: Seq<Seq<char>>,
    deny: Seq<Seq<char>>,
    use_default: bool,
    warn: bool,
    j: int,
)
    requires
        command.len() > 0,
        0 <= j < allow.len(),
        hits(join_spec(command, " "@), normalize_spec(command[0]), allow[j]),
    ensures
        check_allows(command, allow, deny, use_default, warn),
{
}

/// Warn mode never blocks a command.
pub proof fn lemma_warn_never_blocks(
    command: Seq<Seq<char>>,
    allow: Seq<Seq<char>>,
    deny: Seq<Seq<char>>,
    use_default: bool,
)
    ensures
        check_allows(command, allow, deny, use_default, true),
{
}

/// An empty command line is always allowed.
pub proof fn lemma_empty_command_allowed(
    allow: Seq<Seq<char>>,
    deny: Seq<Seq<char>>,
    use_default: bool,
    warn: bool,
)
    ensures
        check_allows(Seq::empty(), allow, deny, use_default, warn),
{
}

/// A command line that equals a deny rule is blocked, unless an allow rule
/// matches or warn mode is on.
pub proof fn lemma_denied_command_blocked(
    command: Seq<Seq<char>>,
    allow: Seq<Seq<char>>,
    deny: Seq<Seq<char>>,
    use_default: bool,
    j: int,
)
    requires
        command.len() > 0,
        0 <= j < deny.len(),
        deny[j] == join_spec(command, " "@),
        !any_hit(allow, join_spec(command, " "@), normalize_spec(command[0])),
    ensures
        !check_allows(command, allow, deny, use_default, false),
{
    assert(hits(join_spec(command, " "@), normalize_spec(command[0]), deny[j]));
}

/// The built-in list applies whatever the user's deny list holds: with the list
/// switched on, warn mode off and no allow rule matching, a command that a
/// built-in rule matches is refused.
pub proof fn lemma_builtin_list_applies_whatever_deny(
    command: Seq<Seq<char>>,
    allow: Seq<Seq<char>>,
    deny: Seq<Seq<char>>,
)
    requires
        command.len() > 0,
        !any_hit(allow, join_spec(command, " "@), normalize_spec(command[0])),
        any_hit(default_denied_spec(), join_spec(command, " "@), normalize_spec(command[0])),
    ensures
        !check_allows(command, allow, deny, true, false),
{
}

/// Adding deny rules never lets through a command that was refused.
pub proof fn lemma_more_deny_rules_refuse_more(
    command: Seq<Seq<char>>,
    allow: Seq<Seq<char>>,
    deny: Seq<Seq<char>>,
    extra: Seq<Seq<char>>,
    use_default: bool,
    warn: bool,
)
    requires
        !check_allows(command, allow, deny, use_default, warn),
    ensures
        !check_allows(command, allow, deny + extra, use_default, warn),
{
    let full = join_spec(command, " "@);
    let norm = normalize_spec(command[0]);
    if any_hit(deny, full, norm) {
        let j = choose|j: int| 0 <= j < deny.len() && hits(full, norm, #[trigger] deny[j]);
        assert((deny + extra)[j] == deny[j]);
    }
}

/// Without the built-in list and without deny rules, every command is allowed.
pub proof fn lemma_no_rules_allow_all(command: Seq<Seq<char>>, allow: Seq<Seq<char>>, warn: bool)
    ensures
        check_allows(command, allow, Seq::empty(), false, warn),
{
}

/// A program name without directories is its own base name.
pub proof fn lemma_normalize_plain_name(cmd: Seq<char>)
    requires
        is_named(cmd),
        cmd != seq!['.', '.'],
        forall|i: int| 0 <= i < cmd.len() ==> cmd[i] != '/',
    ensures
        normalize_spec(cmd) == cmd,
{
    lemma_split_without_sep(cmd, '/');
    let pieces = split_spec(cmd, '/');
    assert(pieces =~= Seq::<Seq<char>>::empty().push(cmd));
    Seq::<Seq<char>>::empty().lemma_filter_push(cmd, named());
    assert(Seq::<Seq<char>>::empty().filter(named()) =~= Seq::<Seq<char>>::empty()) by {
        reveal(Seq::filter);
    }
}

/// Splitting a sequence that holds no separator gives the sequence itself.
proof fn lemma_split_without_sep(s: Seq<char>, sep: char)
    requires
        forall|i: int| 0 <= i < s.len() ==> s[i] != sep,
    ensures
        split_spec(s, sep) == seq![s],
    decreases s.len(),
{
    if s.len() > 0 {
        lemma_split_without_sep(s.drop_last(), sep);
        assert(s.drop_last().push(s.last()) =~= s);
        assert(split_spec(s, sep) =~= seq![s]);
    } else {
        assert(s =~= Seq::<char>::empty());
    }
}

/// The base name of a command never holds a `/`.
pub proof fn lemma_base_name_has_no_slash(cmd: Seq<char>)
    requires
        file_name(cmd) is Some,
    ensures
        forall|i: int| 0 <= i < normalize_spec(cmd).len() ==> normalize_spec(cmd)[i] != '/',
{
    let pieces = split_spec(cmd, '/');
    lemma_split_pieces_have_no_sep(cmd, '/');
    let c = pieces.filter(named());
    let k = c.len() - 1;
    pieces.lemma_filter_contains_rev(named(), c[k]);
    assert(c.contains(c[k]));
}

/// No piece of a split holds the separator.
proof fn lemma_split_pieces_have_no_sep(s: Seq<char>, sep: char)
    ensures
        forall|k: int, i: int| 0 <= k < split_spec(s, sep).len() && 0 <= i < split_spec(s, sep)[k].len()
            ==> split_spec(s, sep)[k][i] != sep,
    decreases s.len(),
{
    if s.len() > 0 {
        lemma_split_pieces_have_no_sep(s.drop_last(), sep);
        crate::strings::lemma_split_nonempty(s.drop_last(), sep);
        let before = split_spec(s.drop_last(), sep);
        if s.last() != sep {
            let last = before.last().push(s.last());
            assert forall|i: int| 0 <= i < last.len() implies last[i] != sep by {
                if i < before.last().len() {
                    assert(before[before.len() - 1][i] != sep);
                }
            }
        }
    }
}

} // verus!
