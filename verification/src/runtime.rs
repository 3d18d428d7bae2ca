//! The settings a runtime starts with, read from its environment.
use crate::text::{
    lemma_split_after_separator, lemma_split_without_separator, ascii_lower_seq, chars_eq_ignore_ascii_case, chars_of, eq_ignore_ascii_case, has_prefix, split_on, split_string,
    starts_with,
};
use vstd::prelude::*;

verus! {

/// The database a runtime talks to.
#[derive(Debug, Clone, Copy, PartialEq, Eq, Structural)]
pub enum DatabaseType {
    Mysql,
    Postgres,
}

/// The database type named by `s`, in any case.
pub open spec fn database_type_named(s: Seq<char>) -> Option<DatabaseType> {
    if eq_ignore_ascii_case(s, "mysql"@) {
        Some(DatabaseType::Mysql)
    } else if eq_ignore_ascii_case(s, "postgres"@) {
        Some(DatabaseType::Postgres)
    } else {
        None
    }
}

/// The database type a connection URL is for, by its scheme.
pub open spec fn database_type_of_url(url: Seq<char>) -> Option<DatabaseType> {
    if has_prefix(url, "mysql://"@) {
        Some(DatabaseType::Mysql)
    } else if has_prefix(url, "postgres://"@) {
        Some(DatabaseType::Postgres)
    } else {
        None
    }
}

impl DatabaseType {
    /// The database type named by `s`, in any case: `mysql` or `postgres`.
    pub fn parse(s: &str) -> (t: Option<DatabaseType>)
        ensures
            t == database_type_named(s@),
    {
        let chars = chars_of(s);
        let mysql = chars_of("mysql");
        let postgres = chars_of("postgres");
        if chars_eq_ignore_ascii_case(&chars, &mysql) {
            Some(DatabaseType::Mysql)
        } else if chars_eq_ignore_ascii_case(&chars, &postgres) {
            Some(DatabaseType::Postgres)
        } else {
            None
        }
    }

    /// The database type a connection URL is for: `mysql://` and
    /// `postgres://` URLs name theirs, others none.
    pub fn of_url(url: &str) -> (t: Option<DatabaseType>)
        ensures
            t == database_type_of_url(url@),
    {
        if starts_with(url, "mysql://") {
            Some(DatabaseType::Mysql)
        } else if starts_with(url, "postgres://") {
            Some(DatabaseType::Postgres)
        } else {
            None
        }
    }
}

impl std::str::FromStr for DatabaseType {
    type Err = ();

    /// The database type named by `s`, in any case; `Err(())` for any other text.
    fn from_str(s: &str) -> (t: Result<Self, Self::Err>)
        ensures
            t == (match database_type_named(s@) {
                Some(d) => Ok::<DatabaseType, ()>(d),
                None => Err::<DatabaseType, ()>(()),
            }),
    {
        match DatabaseType::parse(s) {
            Some(t) => Ok(t),
            None => Err(()),
        }
    }
}

/// Whether `c` is an ASCII decimal digit.
pub open spec fn is_digit(c: char) -> bool {
    '0' <= c <= '9'
}

/// The number the decimal digits `ds` write.
pub open spec fn digits_value(ds: Seq<char>) -> nat
    decreases ds.len(),
{
    if ds.len() == 0 {
        0
    } else {
        digits_value(ds.drop_last()) * 10 + ((ds.last() as int) - ('0' as int)) as nat
    }
}

/// Whether every character of `ds` is an ASCII decimal digit.
pub open spec fn all_digits(ds: Seq<char>) -> bool {
    forall|i: int| 0 <= i < ds.len() ==> is_digit(#[trigger] ds[i])
}

/// The digits of a number as `u16::from_str` reads them: after an optional `+`.
pub open spec fn unsigned_digits(s: Seq<char>) -> Seq<char> {
    if s.len() > 0 && s[0] == '+' {
        s.drop_first()
    } else {
        s
    }
}

/// `u16::from_str`: an optional `+`, then one or more ASCII digits whose
/// value fits in 16 bits.
pub open spec fn parsed_u16(s: Seq<char>) -> Option<u16> {
    let ds = unsigned_digits(s);
    if ds.len() > 0 && all_digits(ds) && digits_value(ds) <= u16::MAX {
        Some(digits_value(ds) as u16)
    } else {
        None
    }
}

proof fn lemma_digits_value_grows(ds: Seq<char>, k: int)
    requires
        0 <= k <= ds.len(),
        all_digits(ds),
    ensures
        digits_value(ds.take(k)) <= digits_value(ds),
    decreases ds.len(),
{
    if k < ds.len() {
        let rest = ds.drop_last();
        assert(rest.take(k) =~= ds.take(k));
        assert forall|i: int| 0 <= i < rest.len() implies is_digit(#[trigger] rest[i]) by {
            assert(rest[i] == ds[i]);
        }
        assert(all_digits(rest));
        lemma_digits_value_grows(rest, k);
    } else {
        assert(ds.take(k) =~= ds);
    }
}

/// `u16::from_str`, as a number or nothing: see `parsed_u16`.
pub fn parse_u16(s: &str) -> (n: Option<u16>)
    ensures
        n == parsed_u16(s@),
{
    let chars = chars_of(s);
    let start: usize = if chars.len() > 0 && chars[0] == '+' {
        1
    } else {
        0
    };
    let ghost ds = chars@.subrange(start as int, chars@.len() as int);
    proof {
        if start == 1 {
            assert(ds =~= s@.drop_first());
        } else {
            assert(ds =~= s@);
        }
    }
    if start == chars.len() {
        return None;
    }
    let mut value: u32 = 0;
    let mut i: usize = start;
    assert(ds.take(0) =~= Seq::<char>::empty());
    while i < chars.len()
        invariant
            chars@ == s@,
            start <= i <= chars@.len(),
            ds == chars@.subrange(start as int, chars@.len() as int),
            ds == unsigned_digits(s@),
            forall|j: int| 0 <= j < i - start ==> is_digit(#[trigger] ds[j]),
            value == digits_value(ds.take(i - start)),
            value <= u16::MAX,
        decreases chars.len() - i,
    {
        let c = chars[i];
        if !('0' <= c && c <= '9') {
            assert(!is_digit(ds[i - start]));
            return None;
        }
        let digit: u32 = (c as u32) - ('0' as u32);
        let next: u32 = value * 10 + digit;
        let ghost taken = ds.take(i - start + 1);
        assert(taken.drop_last() =~= ds.take(i - start));
        assert(taken.last() == c);
        assert(next == digits_value(taken));
        if next > 65535 {
            proof {
                if all_digits(ds) {
                    lemma_digits_value_grows(ds, i - start + 1);
                }
            }
            return None;
        }
        value = next;
        i = i + 1;
    }
    assert(ds.take(ds.len() as int) =~= ds);
    Some(value as u16)
}

/// What a role entry of `USER_ROLES` gives: `name:role` names a user and a
/// role; any other entry names only a user.
pub open spec fn role_entry(entry: Seq<char>) -> (Seq<char>, Option<Seq<char>>) {
    let parts = split_on(entry, ':');
    if parts.len() == 2 {
        (parts[0], Some(parts[1]))
    } else {
        (entry, None)
    }
}

/// How a runtime signs users in with OAuth.
#[derive(Debug, Default, Clone, PartialEq, Eq)]
pub struct OAuthSettings {
    pub client_id: String,
    pub client_secret: String,
    pub auth_url: String,
    pub token_url: String,
    pub redirect_url: String,
    /// Users and the names of their roles.
    pub user_roles: Vec<(String, Option<String>)>,
}

/// The settings a runtime starts with.
#[derive(Debug, Clone, PartialEq, Eq)]
pub struct Config {
    pub hostname: String,
    pub port: u16,
    pub database_url: Option<String>,
    pub database_type: Option<DatabaseType>,
    pub directories: Vec<String>,
    pub oauth_settings: Option<OAuthSettings>,
}

/// The port a runtime listens on unless told otherwise.
pub const DEFAULT_RUNTIME_PORT: u16 = 8080;

impl Default for Config {
    /// `localhost:8080`, no database, no directories, no OAuth.
    fn default() -> (config: Self)
        ensures
            config.hostname@ == "localhost"@,
            config.port == DEFAULT_RUNTIME_PORT,
            config.database_url is None,
            config.database_type is None,
            config.directories@.len() == 0,
            config.oauth_settings is None,
    {
        Config {
            hostname: String::from_str("localhost"),
            port: DEFAULT_RUNTIME_PORT,
            database_url: None,
            database_type: None,
            directories: Vec::new(),
            oauth_settings: None,
        }
    }
}

/// The environment variables a runtime reads its settings from, each as it
/// was found or absent.
#[derive(Debug, Default, Clone)]
pub struct ConfigEnv {
    /// `HOSTNAME`
    pub hostname: Option<String>,
    /// `PORT`
    pub port: Option<String>,
    /// `DATABASE_URL`
    pub database_url: Option<String>,
    /// `DIRECTORIES`
    pub directories: Option<String>,
    /// `OAUTH_CLIENT_ID`
    pub oauth_client_id: Option<String>,
    /// `OAUTH_CLIENT_SECRET`
    pub oauth_client_secret: Option<String>,
    /// `OAUTH_AUTH_URL`
    pub oauth_auth_url: Option<String>,
    /// `OAUTH_TOKEN_URL`
    pub oauth_token_url: Option<String>,
    /// `OAUTH_REDIRECT_URL`
    pub oauth_redirect_url: Option<String>,
    /// `USER_ROLES`
    pub user_roles: Option<String>,
}

/// The views of a list of strings.
pub open spec fn views(v: Seq<String>) -> Seq<Seq<char>> {
    v.map_values(|s: String| s@)
}

/// The role entries of `USER_ROLES`, as views.
pub open spec fn role_views(v: Seq<(String, Option<String>)>) -> Seq<(Seq<char>, Option<Seq<char>>)> {
    v.map_values(|e: (String, Option<String>)| (e.0@, match e.1 {
        Some(r) => Some(r@),
        None => None,
    }))
}

/// The users and roles that `USER_ROLES` lists.
pub fn user_roles(spec_text: &str) -> (roles: Vec<(String, Option<String>)>)
    ensures
        role_views(roles@) == split_on(spec_text@, ',').map_values(|e: Seq<char>| role_entry(e)),
{
    let entries = split_string(spec_text, ',');
    let ghost entry_views = entries@.map_values(|p: String| p@);
    let mut roles: Vec<(String, Option<String>)> = Vec::new();
    let mut i: usize = 0;
    while i < entries.len()
        invariant
            entry_views == entries@.map_values(|p: String| p@),
            entry_views == split_on(spec_text@, ','),
            i <= entries@.len(),
            role_views(roles@) == entry_views.take(i as int).map_values(|e: Seq<char>| role_entry(e)),
        decreases entries.len() - i,
    {
        let entry = &entries[i];
        let parts = split_string(entry.as_str(), ':');
        let ghost before = roles@;
        if parts.len() == 2 {
            let name = parts[0].clone();
            let role = parts[1].clone();
            roles.push((name, Some(role)));
        } else {
            roles.push((entry.clone(), None));
        }
        proof {
            assert(parts@.map_values(|p: String| p@).len() == parts@.len());
            if parts@.len() == 2 {
                assert(parts@.map_values(|p: String| p@)[0] == parts@[0]@);
                assert(parts@.map_values(|p: String| p@)[1] == parts@[1]@);
            }
            assert(role_views(roles@) =~= role_views(before).push(role_entry(entry_views[i as int])));
            assert(entry_views.take(i + 1 as int).map_values(|e: Seq<char>| role_entry(e)) =~= entry_views.take(
                i as int,
            ).map_values(|e: Seq<char>| role_entry(e)).push(role_entry(entry_views[i as int])));
        }
        i = i + 1;
    }
    assert(entry_views.take(entry_views.len() as int) =~= entry_views);
    roles
}

/// The OAuth settings the environment gives: all five of client id,
/// client secret, auth URL, token URL and redirect URL, or none.
pub open spec fn oauth_given(env: ConfigEnv) -> bool {
    env.oauth_client_id is Some && env.oauth_client_secret is Some && env.oauth_auth_url is Some
        && env.oauth_token_url is Some && env.oauth_redirect_url is Some
}

impl Config {
    /// The settings the environment gives: the host name (`localhost` if
    /// unset), the port (8080 if unset or not a 16-bit number), the database
    /// URL and, by its scheme, the database type, the comma-separated
    /// directories, and the OAuth settings with the comma-separated
    /// `name:role` entries of `USER_ROLES`.
    pub fn from_env(env: ConfigEnv) -> (config: Config)
        ensures
            config.hostname@ == (match env.hostname {
                Some(h) => h@,
                None => "localhost"@,
            }),
            config.port == (match env.port {
                Some(p) => match parsed_u16(p@) {
                    Some(n) => n,
                    None => DEFAULT_RUNTIME_PORT,
                },
                None => DEFAULT_RUNTIME_PORT,
            }),
            config.database_url == env.database_url,
            config.database_type == (match env.database_url {
                Some(url) => database_type_of_url(url@),
                None => None,
            }),
            views(config.directories@) == (match env.directories {
                Some(d) => split_on(d@, ','),
                None => Seq::empty(),
            }),
            config.oauth_settings is Some <==> oauth_given(env),
            config.oauth_settings matches Some(o) ==> {
                &&& Some(o.client_id) == env.oauth_client_id
                &&& Some(o.client_secret) == env.oauth_client_secret
                &&& Some(o.auth_url) == env.oauth_auth_url
                &&& Some(o.token_url) == env.oauth_token_url
                &&& Some(o.redirect_url) == env.oauth_redirect_url
                &&& role_views(o.user_roles@) == match env.user_roles {
                    Some(r) => split_on(r@, ',').map_values(|e: Seq<char>| role_entry(e)),
                    None => Seq::empty(),
                }
            },
    {
        let hostname = match env.hostname {
            Some(h) => h,
            None => String::from_str("localhost"),
        };
        let port = match &env.port {
            Some(p) => match parse_u16(p.as_str()) {
                Some(n) => n,
                None => DEFAULT_RUNTIME_PORT,
            },
            None => DEFAULT_RUNTIME_PORT,
        };
        let database_type = match &env.database_url {
            Some(url) => DatabaseType::of_url(url.as_str()),
            None => None,
        };
        let directories = match &env.directories {
            Some(d) => split_string(d.as_str(), ','),
            None => Vec::new(),
        };
        proof {
            if env.directories is None {
                assert(views(directories@) =~= Seq::empty());
            }
        }
        let oauth_settings = match (
            env.oauth_client_id,
            env.oauth_client_secret,
            env.oauth_auth_url,
            env.oauth_token_url,
            env.oauth_redirect_url,
        ) {
            (Some(client_id), Some(client_secret), Some(auth_url), Some(token_url), Some(redirect_url)) => {
                let user_roles = match &env.user_roles {
                    Some(r) => user_roles(r.as_str()),
                    None => Vec::new(),
                };
                proof {
                    if env.user_roles is None {
                        assert(role_views(user_roles@) =~= Seq::empty());
                    }
                }
                Some(OAuthSettings { client_id, client_secret, auth_url, token_url, redirect_url, user_roles })
            },
            _ => None,
        };
        Config {
            hostname,
            port,
            database_url: env.database_url,
            database_type,
            directories,
            oauth_settings,
        }
    }
}

/// Database types are named `mysql` and `postgres`, in any case, and a
/// connection URL tells its type by the scheme `mysql://` or `postgres://`.
pub proof fn law_database_types(name: Seq<char>, url: Seq<char>)
    ensures
        database_type_named(name) == (if ascii_lower_seq(name) == "mysql"@ {
            Some(DatabaseType::Mysql)
        } else if ascii_lower_seq(name) == "postgres"@ {
            Some(DatabaseType::Postgres)
        } else {
            None
        }),
        url.len() >= 8 && url.subrange(0, 8) == "mysql://"@ ==> database_type_of_url(url) == Some(DatabaseType::Mysql),
        url.len() >= 11 && url.subrange(0, 11) == "postgres://"@ ==> database_type_of_url(url) == Some(
            DatabaseType::Postgres,
        ),
        !(url.len() >= 8 && url.subrange(0, 8) == "mysql://"@) && !(url.len() >= 11 && url.subrange(0, 11)
            == "postgres://"@) ==> database_type_of_url(url) is None,
{
    reveal_strlit("mysql");
    reveal_strlit("postgres");
    reveal_strlit("mysql://");
    reveal_strlit("postgres://");
    assert(ascii_lower_seq("mysql"@) =~= "mysql"@);
    assert(ascii_lower_seq("postgres"@) =~= "postgres"@);
    if url.len() >= 11 && url.subrange(0, 11) == "postgres://"@ {
        assert(url.subrange(0, 11)[0] == url[0]);
        assert("postgres://"@[0] == 'p');
        assert(url[0] == 'p');
        if url.len() >= 8 && url.subrange(0, 8) == "mysql://"@ {
            assert(url.subrange(0, 8)[0] == url[0]);
            assert("mysql://"@[0] == 'm');
        }
    }
}

/// Port numbers read as `u16::from_str` reads them: nothing, or anything
/// with a character other than a digit (after one leading `+`), is refused;
/// a leading `+` changes nothing; each further digit multiplies the value by
/// ten and adds itself, as long as the value stays within 16 bits.
pub proof fn law_parsed_u16(ds: Seq<char>, d: char)
    requires
        ds.len() == 0 || ds[0] != '+',
    ensures
        parsed_u16(Seq::empty()) is None,
        parsed_u16(seq!['+']) is None,
        parsed_u16(seq!['+'] + ds) == parsed_u16(ds),
        (exists|i: int| 0 <= i < ds.len() && !('0' <= #[trigger] ds[i] <= '9')) ==> parsed_u16(ds) is None,
        '0' <= d <= '9' && parsed_u16(ds) is Some && (parsed_u16(ds)->0) * 10 + (d as int - '0' as int) <= 65535
            ==> parsed_u16(ds.push(d)) == Some(((parsed_u16(ds)->0) * 10 + (d as int - '0' as int)) as u16),
        '0' <= d <= '9' && parsed_u16(ds) is Some && (parsed_u16(ds)->0) * 10 + (d as int - '0' as int) > 65535
            ==> parsed_u16(ds.push(d)) is None,
        '0' <= d <= '9' && ds.len() == 0 ==> parsed_u16(seq![d]) == Some((d as int - '0' as int) as u16),
{
    assert((seq!['+'] + ds).drop_first() =~= ds);
    assert(seq!['+'].drop_first() =~= Seq::<char>::empty());
    if ds.len() > 0 {
        assert((seq!['+'] + ds)[0] == '+');
    }
    let e = ds.push(d);
    assert(e.drop_last() =~= ds);
    if ds.len() > 0 {
        assert(e[0] == ds[0]);
    }
    if '0' <= d <= '9' && ds.len() == 0 {
        assert(seq![d].drop_last() =~= Seq::<char>::empty());
        assert(seq![d][0] == d);
    }
    if '0' <= d <= '9' && parsed_u16(ds) is Some {
        assert forall|i: int| 0 <= i < e.len() implies is_digit(#[trigger] e[i]) by {
            if i < ds.len() {
                assert(e[i] == ds[i]);
            }
        }
    }
}

/// A role entry `name:role` names the user `name` with the role `role`; an
/// entry without `:` names only a user.
pub proof fn law_role_entries(name: Seq<char>, role: Seq<char>)
    requires
        forall|j: int| 0 <= j < name.len() ==> name[j] != ':',
        forall|j: int| 0 <= j < role.len() ==> role[j] != ':',
    ensures
        role_entry(name + seq![':'] + role) == (name, Some(role)),
        role_entry(name) == (name, None::<Seq<char>>),
{
    lemma_split_without_separator(name, ':');
    lemma_split_after_separator(name, role, ':');
}

} // verus!
