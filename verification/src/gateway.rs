//! Inbound gateway decisions: route tables, route resolution, dedupe keys and
//! which chat events are worth queueing.

use vstd::prelude::*;
use crate::channel::{channel_from_name, channel_name, Channel};
use crate::text::{contains, lower_seq, opt_str, owned, trim};

verus! {

/// Fallback tenant and employee for routes that do not name them.
#[derive(Debug, Clone, PartialEq, Eq)]
pub struct GatewayDefaultsConfig {
    pub tenant_id: Option<String>,
    pub employee_id: Option<String>,
}

impl Default for GatewayDefaultsConfig {
    fn default() -> (r: Self)
        ensures
            r.tenant_id is None,
            r.employee_id is None,
    {
        GatewayDefaultsConfig { tenant_id: None, employee_id: None }
    }
}

/// One route as written in the gateway configuration.
#[derive(Debug, Clone, PartialEq, Eq)]
pub struct GatewayRouteConfig {
    pub channel: String,
    pub key: String,
    pub employee_id: String,
    pub tenant_id: Option<String>,
}

/// A route: a channel and a normalized key on it.
#[derive(Debug, Clone, PartialEq, Eq, Hash)]
pub struct RouteKey {
    pub channel: Channel,
    pub key: String,
}

/// Where a route leads.
#[derive(Debug, Clone, PartialEq, Eq)]
pub struct RouteTarget {
    pub tenant_id: Option<String>,
    pub employee_id: String,
}

/// The tenant and employee a message is routed to.
#[derive(Debug, Clone, PartialEq, Eq)]
pub struct RouteDecision {
    pub tenant_id: String,
    pub employee_id: String,
}

/// Routing tables: explicit routes and per-channel defaults (`*` routes).
#[derive(Debug, Clone)]
pub struct GatewayConfig {
    pub defaults: GatewayDefaultsConfig,
    pub routes: Vec<(RouteKey, RouteTarget)>,
    pub channel_defaults: Vec<(Channel, RouteTarget)>,
}

/// A route table as plain values: (channel, key) to target.
pub open spec fn route_views(v: Seq<(RouteKey, RouteTarget)>) -> Seq<(Channel, Seq<char>, RouteTarget)> {
    v.map_values(|p: (RouteKey, RouteTarget)| (p.0.channel, p.0.key@, p.1))
}

/// Position of the route for (channel, key), or the table length.
pub open spec fn find_route(rs: Seq<(Channel, Seq<char>, RouteTarget)>, c: Channel, k: Seq<char>) -> int
    decreases rs.len(),
{
    if rs.len() == 0 {
        0
    } else if rs[0].0 == c && rs[0].1 == k {
        0
    } else {
        1 + find_route(rs.drop_first(), c, k)
    }
}

/// Position of the default for `c`, or the table length.
pub open spec fn find_default(ds: Seq<(Channel, RouteTarget)>, c: Channel) -> int
    decreases ds.len(),
{
    if ds.len() == 0 {
        0
    } else if ds[0].0 == c {
        0
    } else {
        1 + find_default(ds.drop_first(), c)
    }
}

/// Position of the address mapping for `a`, or the table length.
pub open spec fn find_address(m: Seq<(Seq<char>, Seq<char>)>, a: Seq<char>) -> int
    decreases m.len(),
{
    if m.len() == 0 {
        0
    } else if m[0].0 == a {
        0
    } else {
        1 + find_address(m.drop_first(), a)
    }
}

pub open spec fn pair_views(v: Seq<(String, String)>) -> Seq<(Seq<char>, Seq<char>)> {
    v.map_values(|p: (String, String)| (p.0@, p.1@))
}

/// `value.trim().to_ascii_lowercase()`.
pub open spec fn normalize_email_spec(v: Seq<char>) -> Seq<char> {
    lower_seq(trim(v))
}

/// Digits and `+` signs of `v`, in order.
pub open spec fn phone_chars(v: Seq<char>) -> Seq<char>
    decreases v.len(),
{
    if v.len() == 0 {
        Seq::empty()
    } else {
        let prev = phone_chars(v.drop_last());
        let c = v.last();
        if ('0' <= c && c <= '9') || c == '+' {
            prev.push(c)
        } else {
            prev
        }
    }
}

/// The normalized form of a route key on a channel.
pub open spec fn normalize_route_key_spec(c: Channel, k: Seq<char>) -> Seq<char> {
    let t = trim(k);
    if t == "*"@ {
        "*"@
    } else {
        match c {
            Channel::Email => normalize_email_spec(t),
            Channel::Sms => phone_chars(t),
            _ => t,
        }
    }
}

/// Normalizes an email address for routing.
pub fn normalize_email(value: &str) -> (r: String)
    ensures
        r@ == normalize_email_spec(value@),
{
    let t = crate::text::trim_str(value);
    crate::text::lower_str(t.as_str())
}

/// Keeps the digits and `+` signs of a phone number.
pub fn normalize_phone_number(value: &str) -> (r: String)
    ensures
        r@ == phone_chars(value@),
{
    let v = crate::text::to_chars(value);
    let mut out: Vec<char> = Vec::new();
    let mut i: usize = 0;
    while i < v.len()
        invariant
            i <= v@.len(),
            out@ == phone_chars(v@.take(i as int)),
        decreases v@.len() - i,
    {
        proof {
            assert(v@.take(i + 1).drop_last() =~= v@.take(i as int));
        }
        let c = v[i];
        if ('0' <= c && c <= '9') || c == '+' {
            out.push(c);
        }
        i = i + 1;
    }
    proof {
        assert(v@.take(v@.len() as int) =~= v@);
    }
    crate::text::from_chars(out.as_slice())
}

proof fn lemma_trim_start_lower(s: Seq<char>)
    ensures
        crate::text::trim_start(lower_seq(s)) == lower_seq(crate::text::trim_start(s)),
    decreases s.len(),
{
    if s.len() > 0 {
        assert(lower_seq(s)[0] == crate::text::lower(s[0]));
        if crate::text::is_ws(s[0]) {
            assert(lower_seq(s).drop_first() =~= lower_seq(s.drop_first()));
            lemma_trim_start_lower(s.drop_first());
        }
    }
}

proof fn lemma_trim_end_lower(s: Seq<char>)
    ensures
        crate::text::trim_end(lower_seq(s)) == lower_seq(crate::text::trim_end(s)),
    decreases s.len(),
{
    if s.len() > 0 {
        assert(lower_seq(s).last() == crate::text::lower(s.last()));
        if crate::text::is_ws(s.last()) {
            assert(lower_seq(s).drop_last() =~= lower_seq(s.drop_last()));
            lemma_trim_end_lower(s.drop_last());
        }
    }
}

/// Trimming and ASCII lower-casing can be done in either order.
proof fn lemma_trim_lower_commute(s: Seq<char>)
    ensures
        trim(lower_seq(s)) == lower_seq(trim(s)),
{
    lemma_trim_start_lower(s);
    lemma_trim_end_lower(crate::text::trim_start(s));
}

proof fn lemma_lower_twice(s: Seq<char>)
    ensures
        lower_seq(lower_seq(s)) == lower_seq(s),
{
    assert(lower_seq(lower_seq(s)) =~= lower_seq(s));
}

proof fn lemma_phone_chars_only(v: Seq<char>)
    ensures
        forall|i: int| 0 <= i < phone_chars(v).len() ==> {
            let c = #[trigger] phone_chars(v)[i];
            ('0' <= c && c <= '9') || c == '+'
        },
    decreases v.len(),
{
    if v.len() > 0 {
        lemma_phone_chars_only(v.drop_last());
        let p = phone_chars(v.drop_last());
        assert forall|i: int| 0 <= i < phone_chars(v).len() implies {
            let c = #[trigger] phone_chars(v)[i];
            ('0' <= c && c <= '9') || c == '+'
        } by {
            if i < p.len() {
                assert(phone_chars(v)[i] == p[i]);
            }
        }
    }
}

proof fn lemma_phone_chars_twice(v: Seq<char>)
    ensures
        phone_chars(phone_chars(v)) == phone_chars(v),
    decreases v.len(),
{
    if v.len() > 0 {
        lemma_phone_chars_twice(v.drop_last());
        let p = phone_chars(v.drop_last());
        let c = v.last();
        if ('0' <= c && c <= '9') || c == '+' {
            assert(p.push(c).drop_last() =~= p);
        }
    }
}

/// Normalizing a route key twice gives what normalizing it once gives.
pub proof fn lemma_route_key_normal(c: Channel, k: Seq<char>)
    ensures
        normalize_route_key_spec(c, normalize_route_key_spec(c, k)) == normalize_route_key_spec(c, k),
{
    reveal_strlit("*");
    let t = trim(k);
    crate::text::lemma_trim_idempotent(k);
    let n = normalize_route_key_spec(c, k);
    if t == "*"@ {
        assert(crate::text::trim_start("*"@) == "*"@);
        assert(crate::text::trim_end("*"@) == "*"@);
    } else {
        match c {
            Channel::Email => {
                lemma_trim_lower_commute(t);
                lemma_lower_twice(t);
                if trim(n) == "*"@ {
                    assert(n[0] == '*');
                    assert(t.len() == 1);
                    assert(t[0] == '*');
                    assert(t =~= "*"@);
                }
            },
            Channel::Sms => {
                lemma_phone_chars_only(t);
                crate::text::lemma_trim_no_ws(n);
                lemma_phone_chars_twice(t);
                if n == "*"@ {
                    assert(n[0] == '*');
                }
            },
            _ => {},
        }
    }
}

/// Normalizes a route key: `*` stays, emails are lower-cased, phone numbers
/// keep digits and `+`, other keys are trimmed.
pub fn normalize_route_key(channel: Channel, key: &str) -> (r: String)
    ensures
        r@ == normalize_route_key_spec(channel, key@),
{
    let trimmed = crate::text::trim_str(key);
    if crate::text::str_eq(trimmed.as_str(), "*") {
        return owned("*");
    }
    match channel {
        Channel::Email => normalize_email(trimmed.as_str()),
        Channel::Sms => normalize_phone_number(trimmed.as_str()),
        _ => trimmed,
    }
}


/// The route table with (c, k) mapped to `t`, replacing an earlier target.
pub open spec fn insert_route(rs: Seq<(Channel, Seq<char>, RouteTarget)>, c: Channel, k: Seq<char>, t: RouteTarget) -> Seq<(Channel, Seq<char>, RouteTarget)> {
    let i = find_route(rs, c, k);
    if 0 <= i < rs.len() {
        rs.update(i, (c, k, t))
    } else {
        rs.push((c, k, t))
    }
}

/// The default table with `c` mapped to `t`, replacing an earlier target.
pub open spec fn insert_default(ds: Seq<(Channel, RouteTarget)>, c: Channel, t: RouteTarget) -> Seq<(Channel, RouteTarget)> {
    let i = find_default(ds, c);
    if 0 <= i < ds.len() {
        ds.update(i, (c, t))
    } else {
        ds.push((c, t))
    }
}

pub open spec fn route_target_of(r: GatewayRouteConfig) -> RouteTarget {
    RouteTarget { tenant_id: r.tenant_id, employee_id: r.employee_id }
}

/// The message for a route whose channel is not known.
pub open spec fn invalid_channel_message(channel: Seq<char>) -> Seq<char> {
    "invalid route channel "@ + channel + ": unknown channel "@ + channel
}

/// Route tables built from configured routes, or the first configuration error.
pub open spec fn route_tables(rs: Seq<GatewayRouteConfig>) -> Result<(Seq<(Channel, Seq<char>, RouteTarget)>, Seq<(Channel, RouteTarget)>), Seq<char>>
    decreases rs.len(),
{
    if rs.len() == 0 {
        Ok((Seq::empty(), Seq::empty()))
    } else {
        match route_tables(rs.drop_last()) {
            Err(e) => Err(e),
            Ok(tables) => {
                let r = rs.last();
                match channel_from_name(r.channel@) {
                    None => Err(invalid_channel_message(r.channel@)),
                    Some(c) => {
                        let k = normalize_route_key_spec(c, trim(r.key@));
                        if k.len() == 0 {
                            Err("route key cannot be empty"@)
                        } else if k == "*"@ {
                            Ok((tables.0, insert_default(tables.1, c, route_target_of(r))))
                        } else {
                            Ok((insert_route(tables.0, c, k, route_target_of(r)), tables.1))
                        }
                    },
                }
            },
        }
    }
}

/// The first route for the channel and key is at `i` when it is there and
/// none before it matches.
pub proof fn lemma_find_route_is(rs: Seq<(Channel, Seq<char>, RouteTarget)>, c: Channel, k: Seq<char>, i: int)
    requires
        0 <= i <= rs.len(),
        i < rs.len() ==> rs[i].0 == c && rs[i].1 == k,
        forall|j: int| 0 <= j < i ==> !(rs[j].0 == c && rs[j].1 == k),
    ensures
        find_route(rs, c, k) == i,
    decreases rs.len(),
{
    if rs.len() > 0 && i > 0 {
        lemma_find_route_is(rs.drop_first(), c, k, i - 1);
    }
}

/// The first channel default is at `i` when it is there and none before it
/// matches.
pub proof fn lemma_find_default_is(ds: Seq<(Channel, RouteTarget)>, c: Channel, i: int)
    requires
        0 <= i <= ds.len(),
        i < ds.len() ==> ds[i].0 == c,
        forall|j: int| 0 <= j < i ==> ds[j].0 != c,
    ensures
        find_default(ds, c) == i,
    decreases ds.len(),
{
    if ds.len() > 0 && i > 0 {
        lemma_find_default_is(ds.drop_first(), c, i - 1);
    }
}

/// The first entry for the address is at `i` when it is there and none
/// before it matches.
pub proof fn lemma_find_address_is(m: Seq<(Seq<char>, Seq<char>)>, a: Seq<char>, i: int)
    requires
        0 <= i <= m.len(),
        i < m.len() ==> m[i].0 == a,
        forall|j: int| 0 <= j < i ==> m[j].0 != a,
    ensures
        find_address(m, a) == i,
    decreases m.len(),
{
    if m.len() > 0 && i > 0 {
        lemma_find_address_is(m.drop_first(), a, i - 1);
    }
}

fn find_route_exec(rs: &Vec<(RouteKey, RouteTarget)>, c: Channel, k: &str) -> (i: usize)
    ensures
        i as int == find_route(route_views(rs@), c, k@),
        i <= rs@.len(),
{
    let mut i: usize = 0;
    while i < rs.len()
        invariant
            i <= rs@.len(),
            forall|j: int| 0 <= j < i ==> !(route_views(rs@)[j].0 == c && route_views(rs@)[j].1 == k@),
        decreases rs@.len() - i,
    {
        if rs[i].0.channel == c && crate::text::str_eq(rs[i].0.key.as_str(), k) {
            proof {
                lemma_find_route_is(route_views(rs@), c, k@, i as int);
            }
            return i;
        }
        i = i + 1;
    }
    proof {
        lemma_find_route_is(route_views(rs@), c, k@, i as int);
    }
    i
}

fn find_default_exec(ds: &Vec<(Channel, RouteTarget)>, c: Channel) -> (i: usize)
    ensures
        i as int == find_default(ds@, c),
        i <= ds@.len(),
{
    let mut i: usize = 0;
    while i < ds.len()
        invariant
            i <= ds@.len(),
            forall|j: int| 0 <= j < i ==> ds@[j].0 != c,
        decreases ds@.len() - i,
    {
        if ds[i].0 == c {
            proof {
                lemma_find_default_is(ds@, c, i as int);
            }
            return i;
        }
        i = i + 1;
    }
    proof {
        lemma_find_default_is(ds@, c, i as int);
    }
    i
}

fn find_address_exec(m: &Vec<(String, String)>, a: &str) -> (i: usize)
    ensures
        i as int == find_address(pair_views(m@), a@),
        i <= m@.len(),
{
    let mut i: usize = 0;
    while i < m.len()
        invariant
            i <= m@.len(),
            forall|j: int| 0 <= j < i ==> pair_views(m@)[j].0 != a@,
        decreases m@.len() - i,
    {
        if crate::text::str_eq(m[i].0.as_str(), a) {
            proof {
                lemma_find_address_is(pair_views(m@), a@, i as int);
            }
            return i;
        }
        i = i + 1;
    }
    proof {
        lemma_find_address_is(pair_views(m@), a@, i as int);
    }
    i
}

pub fn copy_target(t: &RouteTarget) -> (r: RouteTarget)
    ensures
        r == *t,
{
    RouteTarget { tenant_id: crate::text::clone_opt(&t.tenant_id), employee_id: t.employee_id.clone() }
}

/// Builds the route tables from configured routes: `*` keys become channel
/// defaults, other keys explicit routes; a later route replaces an earlier one
/// with the same channel and key.
pub fn normalize_routes(routes: &[GatewayRouteConfig]) -> (r: Result<(Vec<(RouteKey, RouteTarget)>, Vec<(Channel, RouteTarget)>), String>)
    ensures
        match (r, route_tables(routes@)) {
            (Ok(t), Ok(s)) => route_views(t.0@) == s.0 && t.1@ == s.1,
            (Err(e), Err(s)) => e@ == s,
            _ => false,
        },
{
    let mut map: Vec<(RouteKey, RouteTarget)> = Vec::new();
    let mut defaults: Vec<(Channel, RouteTarget)> = Vec::new();
    let mut i: usize = 0;
    proof {
        assert(routes@.take(0) =~= Seq::<GatewayRouteConfig>::empty());
        assert(route_views(map@) =~= Seq::<(Channel, Seq<char>, RouteTarget)>::empty());
        assert(defaults@ =~= Seq::<(Channel, RouteTarget)>::empty());
    }
    while i < routes.len()
        invariant
            i <= routes@.len(),
            route_tables(routes@.take(i as int)) == Ok::<_, Seq<char>>((route_views(map@), defaults@)),
        decreases routes@.len() - i,
    {
        proof {
            assert(routes@.take(i + 1).drop_last() =~= routes@.take(i as int));
            assert(routes@.take(i + 1).last() == routes@[i as int]);
        }
        let route = &routes[i];
        let channel = match Channel::parse_name(route.channel.as_str()) {
            Some(c) => c,
            None => {
                let mut msg = crate::text::concat3("invalid route channel ", route.channel.as_str(), ": unknown channel ");
                msg.append(route.channel.as_str());
                proof {
                    assert(msg@ =~= invalid_channel_message(route.channel@));
                    lemma_route_tables_err_stays(routes@, i as int + 1);
                }
                return Err(msg);
            },
        };
        let tk = crate::text::trim_str(route.key.as_str());
        let key = normalize_route_key(channel, tk.as_str());
        if key.as_str().is_empty() {
            proof {
                lemma_route_tables_err_stays(routes@, i as int + 1);
            }
            return Err(owned("route key cannot be empty"));
        }
        let target = RouteTarget { tenant_id: crate::text::clone_opt(&route.tenant_id), employee_id: route.employee_id.clone() };
        if crate::text::str_eq(key.as_str(), "*") {
            let k = find_default_exec(&defaults, channel);
            if k < defaults.len() {
                defaults.set(k, (channel, target));
            } else {
                defaults.push((channel, target));
            }
            proof {
                assert(defaults@ =~= insert_default(route_tables(routes@.take(i as int))->Ok_0.1, channel, route_target_of(routes@[i as int])));
            }
        } else {
            let k = find_route_exec(&map, channel, key.as_str());
            let ghost before = route_views(map@);
            let rk = RouteKey { channel, key };
            if k < map.len() {
                map.set(k, (rk, target));
                proof {
                    assert(route_views(map@) =~= before.update(k as int, (channel, rk.key@, route_target_of(routes@[i as int]))));
                }
            } else {
                map.push((rk, target));
                proof {
                    assert(route_views(map@) =~= before.push((channel, rk.key@, route_target_of(routes@[i as int]))));
                }
            }
        }
        i = i + 1;
    }
    proof {
        assert(routes@.take(routes@.len() as int) =~= routes@);
    }
    Ok((map, defaults))
}

/// Once building the tables from a prefix fails, every longer prefix fails the same way.
pub proof fn lemma_route_tables_err_stays(rs: Seq<GatewayRouteConfig>, n: int)
    requires
        0 <= n <= rs.len(),
        route_tables(rs.take(n)) is Err,
    ensures
        route_tables(rs) == route_tables(rs.take(n)),
    decreases rs.len() - n,
{
    if n < rs.len() {
        assert(rs.take(n + 1).drop_last() =~= rs.take(n));
        lemma_route_tables_err_stays(rs, n + 1);
    } else {
        assert(rs.take(n) =~= rs);
    }
}


/// A route target as plain values: (tenant, employee).
pub open spec fn target_view(t: RouteTarget) -> (Option<Seq<char>>, Seq<char>) {
    (opt_str(t.tenant_id), t.employee_id@)
}

/// The target a message on `channel` with key `route_key` is routed to, if any:
/// the explicit route, else the channel default, else (for email) the employee
/// owning the address, else the default employee.
pub open spec fn route_target_spec(
    channel: Channel,
    route_key: Seq<char>,
    config: GatewayConfig,
    addresses: Seq<(Seq<char>, Seq<char>)>,
) -> Option<(Option<Seq<char>>, Seq<char>)> {
    let nk = normalize_route_key_spec(channel, route_key);
    let rs = route_views(config.routes@);
    let ri = find_route(rs, channel, nk);
    let ds = config.channel_defaults@;
    let di = find_default(ds, channel);
    let ai = find_address(addresses, nk);
    let tenant = opt_str(config.defaults.tenant_id);
    if 0 <= ri < rs.len() {
        Some(target_view(rs[ri].2))
    } else if 0 <= di < ds.len() {
        Some(target_view(ds[di].1))
    } else if channel == Channel::Email && 0 <= ai < addresses.len() {
        Some((tenant, addresses[ai].1))
    } else {
        match config.defaults.employee_id {
            Some(e) => Some((tenant, e@)),
            None => None,
        }
    }
}

/// The routing decision: the target's tenant, else the default tenant, else `default`.
pub open spec fn route_decision_spec(
    channel: Channel,
    route_key: Seq<char>,
    config: GatewayConfig,
    addresses: Seq<(Seq<char>, Seq<char>)>,
) -> Option<(Seq<char>, Seq<char>)> {
    match route_target_spec(channel, route_key, config, addresses) {
        None => None,
        Some(t) => Some(
            (
                match t.0 {
                    Some(x) => x,
                    None => match opt_str(config.defaults.tenant_id) {
                        Some(y) => y,
                        None => "default"@,
                    },
                },
                t.1,
            ),
        ),
    }
}

/// Resolves the tenant and employee for a message on `channel` keyed by `route_key`.
pub fn resolve_route(
    channel: Channel,
    route_key: &str,
    config: &GatewayConfig,
    address_to_employee: &Vec<(String, String)>,
) -> (r: Option<RouteDecision>)
    ensures
        match (r, route_decision_spec(channel, route_key@, *config, pair_views(address_to_employee@))) {
            (Some(d), Some(s)) => d.tenant_id@ == s.0 && d.employee_id@ == s.1,
            (None, None) => true,
            _ => false,
        },
{
    let nk = normalize_route_key(channel, route_key);
    let ri = find_route_exec(&config.routes, channel, nk.as_str());
    let target: Option<RouteTarget> = if ri < config.routes.len() {
        Some(copy_target(&config.routes[ri].1))
    } else {
        let di = find_default_exec(&config.channel_defaults, channel);
        if di < config.channel_defaults.len() {
            Some(copy_target(&config.channel_defaults[di].1))
        } else {
            let ai = find_address_exec(address_to_employee, nk.as_str());
            if channel == Channel::Email && ai < address_to_employee.len() {
                Some(RouteTarget {
                    employee_id: address_to_employee[ai].1.clone(),
                    tenant_id: crate::text::clone_opt(&config.defaults.tenant_id),
                })
            } else {
                match &config.defaults.employee_id {
                    Some(e) => Some(RouteTarget {
                        employee_id: e.clone(),
                        tenant_id: crate::text::clone_opt(&config.defaults.tenant_id),
                    }),
                    None => None,
                }
            }
        }
    };
    match target {
        None => None,
        Some(t) => {
            let tenant_id = match t.tenant_id {
                Some(x) => x,
                None => match &config.defaults.tenant_id {
                    Some(y) => y.clone(),
                    None => owned("default"),
                },
            };
            Some(RouteDecision { tenant_id, employee_id: t.employee_id })
        },
    }
}

/// The lookup stops at or before any entry matching (channel, key).
pub proof fn lemma_find_route_within(rs: Seq<(Channel, Seq<char>, RouteTarget)>, c: Channel, k: Seq<char>, i: int)
    requires
        0 <= i < rs.len(),
        rs[i].0 == c && rs[i].1 == k,
    ensures
        0 <= find_route(rs, c, k) <= i,
    decreases i,
{
    if i > 0 && !(rs[0].0 == c && rs[0].1 == k) {
        assert(rs.drop_first()[i - 1] == rs[i]);
        lemma_find_route_within(rs.drop_first(), c, k, i - 1);
    }
}

/// An explicit route wins. When `config.routes[i]` is the first route for
/// the channel and the normalized key, the message goes to that route's
/// employee, and to its tenant where the route names one, whatever the
/// channel defaults and the address book say.
pub proof fn lemma_explicit_route_wins(
    channel: Channel,
    route_key: Seq<char>,
    config: GatewayConfig,
    addresses: Seq<(Seq<char>, Seq<char>)>,
    i: int,
)
    requires
        0 <= i < config.routes@.len(),
        config.routes@[i].0.channel == channel,
        config.routes@[i].0.key@ == normalize_route_key_spec(channel, route_key),
        forall|j: int| 0 <= j < i ==> !((#[trigger] config.routes@[j]).0.channel == channel
            && config.routes@[j].0.key@ == normalize_route_key_spec(channel, route_key)),
    ensures
        match route_decision_spec(channel, route_key, config, addresses) {
            Some(d) => d.1 == config.routes@[i].1.employee_id@ && match config.routes@[i].1.tenant_id {
                Some(t) => d.0 == t@,
                None => true,
            },
            None => false,
        },
{
    let nk = normalize_route_key_spec(channel, route_key);
    let rs = route_views(config.routes@);
    assert forall|j: int| 0 <= j < i implies !((#[trigger] rs[j]).0 == channel && rs[j].1 == nk) by {
        assert(rs[j] == (config.routes@[j].0.channel, config.routes@[j].0.key@, config.routes@[j].1));
    }
    lemma_find_route_is(rs, channel, nk, i);
}

/// Channel defaults do not matter where an explicit route matches: two
/// configurations with the same defaults and routes decide the same,
/// whatever their per-channel default tables hold.
pub proof fn lemma_channel_defaults_yield_to_routes(
    channel: Channel,
    route_key: Seq<char>,
    config: GatewayConfig,
    other: GatewayConfig,
    addresses: Seq<(Seq<char>, Seq<char>)>,
)
    requires
        other.defaults == config.defaults,
        other.routes@ == config.routes@,
        exists|i: int| 0 <= i < config.routes@.len() && (#[trigger] config.routes@[i]).0.channel == channel
            && config.routes@[i].0.key@ == normalize_route_key_spec(channel, route_key),
    ensures
        route_decision_spec(channel, route_key, other, addresses) == route_decision_spec(channel, route_key, config, addresses),
{
    let nk = normalize_route_key_spec(channel, route_key);
    let i = choose|i: int| 0 <= i < config.routes@.len() && (#[trigger] config.routes@[i]).0.channel == channel
        && config.routes@[i].0.key@ == nk;
    let rs = route_views(config.routes@);
    assert(rs[i] == (config.routes@[i].0.channel, config.routes@[i].0.key@, config.routes@[i].1));
    lemma_find_route_within(rs, channel, nk, i);
    assert(route_views(other.routes@) == rs);
}

/// No explicit route is configured for the channel and the normalized key.
pub open spec fn no_route_for(channel: Channel, route_key: Seq<char>, config: GatewayConfig) -> bool {
    forall|j: int| 0 <= j < config.routes@.len() ==> !((#[trigger] config.routes@[j]).0.channel == channel
        && config.routes@[j].0.key@ == normalize_route_key_spec(channel, route_key))
}

/// Without an explicit route, the first channel default for the channel
/// decides: its employee, and its tenant where it names one.
pub proof fn lemma_channel_default_applies(
    channel: Channel,
    route_key: Seq<char>,
    config: GatewayConfig,
    addresses: Seq<(Seq<char>, Seq<char>)>,
    i: int,
)
    requires
        no_route_for(channel, route_key, config),
        0 <= i < config.channel_defaults@.len(),
        config.channel_defaults@[i].0 == channel,
        forall|j: int| 0 <= j < i ==> (#[trigger] config.channel_defaults@[j]).0 != channel,
    ensures
        match route_decision_spec(channel, route_key, config, addresses) {
            Some(d) => d.1 == config.channel_defaults@[i].1.employee_id@ && match config.channel_defaults@[i].1.tenant_id {
                Some(t) => d.0 == t@,
                None => true,
            },
            None => false,
        },
{
    let nk = normalize_route_key_spec(channel, route_key);
    let rs = route_views(config.routes@);
    assert forall|j: int| 0 <= j < rs.len() implies !(rs[j].0 == channel && rs[j].1 == nk) by {
        assert(rs[j] == (config.routes@[j].0.channel, config.routes@[j].0.key@, config.routes@[j].1));
    }
    lemma_find_route_is(rs, channel, nk, rs.len() as int);
    lemma_find_default_is(config.channel_defaults@, channel, i);
}

/// An email with neither an explicit route nor an email default goes to the
/// employee that owns the normalized address, under the default tenant (or
/// `default` when none is set).
pub proof fn lemma_email_goes_to_address_owner(
    route_key: Seq<char>,
    config: GatewayConfig,
    addresses: Seq<(Seq<char>, Seq<char>)>,
    i: int,
)
    requires
        no_route_for(Channel::Email, route_key, config),
        forall|j: int| 0 <= j < config.channel_defaults@.len() ==> (#[trigger] config.channel_defaults@[j]).0 != Channel::Email,
        0 <= i < addresses.len(),
        addresses[i].0 == normalize_route_key_spec(Channel::Email, route_key),
        forall|j: int| 0 <= j < i ==> (#[trigger] addresses[j]).0 != addresses[i].0,
    ensures
        route_decision_spec(Channel::Email, route_key, config, addresses) == Some((
            match config.defaults.tenant_id {
                Some(t) => t@,
                None => "default"@,
            },
            addresses[i].1,
        )),
{
    let nk = normalize_route_key_spec(Channel::Email, route_key);
    let rs = route_views(config.routes@);
    assert forall|j: int| 0 <= j < rs.len() implies !(rs[j].0 == Channel::Email && rs[j].1 == nk) by {
        assert(rs[j] == (config.routes@[j].0.channel, config.routes@[j].0.key@, config.routes@[j].1));
    }
    lemma_find_route_is(rs, Channel::Email, nk, rs.len() as int);
    lemma_find_default_is(config.channel_defaults@, Channel::Email, config.channel_defaults@.len() as int);
    lemma_find_address_is(addresses, nk, i);
}

/// A message that no route, channel default or address mapping claims goes
/// to the default employee when one is set, and is not routed otherwise.
pub proof fn lemma_unclaimed_goes_to_default_employee(
    channel: Channel,
    route_key: Seq<char>,
    config: GatewayConfig,
    addresses: Seq<(Seq<char>, Seq<char>)>,
)
    requires
        no_route_for(channel, route_key, config),
        forall|j: int| 0 <= j < config.channel_defaults@.len() ==> (#[trigger] config.channel_defaults@[j]).0 != channel,
        forall|j: int| 0 <= j < addresses.len() ==> (#[trigger] addresses[j]).0 != normalize_route_key_spec(channel, route_key),
    ensures
        route_decision_spec(channel, route_key, config, addresses) == match config.defaults.employee_id {
            Some(e) => Some((
                match config.defaults.tenant_id {
                    Some(t) => t@,
                    None => "default"@,
                },
                e@,
            )),
            None => None,
        },
{
    let nk = normalize_route_key_spec(channel, route_key);
    let rs = route_views(config.routes@);
    assert forall|j: int| 0 <= j < rs.len() implies !(rs[j].0 == channel && rs[j].1 == nk) by {
        assert(rs[j] == (config.routes@[j].0.channel, config.routes@[j].0.key@, config.routes@[j].1));
    }
    lemma_find_route_is(rs, channel, nk, rs.len() as int);
    lemma_find_default_is(config.channel_defaults@, channel, config.channel_defaults@.len() as int);
    lemma_find_address_is(addresses, nk, addresses.len() as int);
}

/// Some explicit route or channel default exists for Discord.
pub open spec fn has_discord_routes_spec(config: GatewayConfig) -> bool {
    (exists|i: int| 0 <= i < config.channel_defaults@.len() && (#[trigger] config.channel_defaults@[i]).0 == Channel::Discord)
        || (exists|i: int| 0 <= i < config.routes@.len() && (#[trigger] config.routes@[i]).0.channel == Channel::Discord)
}

/// Whether the gateway has any Discord route to serve.
pub fn has_discord_routes(config: &GatewayConfig) -> (b: bool)
    ensures
        b == has_discord_routes_spec(*config),
{
    let mut i: usize = 0;
    while i < config.channel_defaults.len()
        invariant
            i <= config.channel_defaults@.len(),
            forall|k: int| 0 <= k < i ==> (#[trigger] config.channel_defaults@[k]).0 != Channel::Discord,
        decreases config.channel_defaults@.len() - i,
    {
        if config.channel_defaults[i].0 == Channel::Discord {
            return true;
        }
        i = i + 1;
    }
    let mut j: usize = 0;
    while j < config.routes.len()
        invariant
            j <= config.routes@.len(),
            forall|k: int| 0 <= k < config.channel_defaults@.len() ==> (#[trigger] config.channel_defaults@[k]).0 != Channel::Discord,
            forall|k: int| 0 <= k < j ==> (#[trigger] config.routes@[k]).0.channel != Channel::Discord,
        decreases config.routes@.len() - j,
    {
        if config.routes[j].0.channel == Channel::Discord {
            return true;
        }
        j = j + 1;
    }
    false
}

/// A Discord message is queued when it is a direct message, mentions the bot
/// or replies to the bot.
pub fn should_enqueue_discord_message(is_direct_message: bool, is_mention: bool, is_reply_to_bot: bool) -> (b: bool)
    ensures
        b == (is_direct_message || is_mention || is_reply_to_bot),
{
    is_direct_message || is_mention || is_reply_to_bot
}

/// Address-to-employee table: every address of every employee; when an address
/// is listed twice, the later employee keeps it.
pub open spec fn address_table(es: Seq<(Seq<char>, Seq<Seq<char>>)>) -> Seq<(Seq<char>, Seq<char>)>
    decreases es.len(),
{
    if es.len() == 0 {
        Seq::empty()
    } else {
        insert_addresses(address_table(es.drop_last()), es.last().0, es.last().1)
    }
}

/// The table with each address of `addrs` mapped to `employee`.
pub open spec fn insert_addresses(m: Seq<(Seq<char>, Seq<char>)>, employee: Seq<char>, addrs: Seq<Seq<char>>) -> Seq<(Seq<char>, Seq<char>)>
    decreases addrs.len(),
{
    if addrs.len() == 0 {
        m
    } else {
        let prev = insert_addresses(m, employee, addrs.drop_last());
        let a = addrs.last();
        let k = find_address(prev, a);
        if 0 <= k < prev.len() {
            prev.update(k, (a, employee))
        } else {
            prev.push((a, employee))
        }
    }
}

pub open spec fn employee_views(v: Seq<(String, Vec<String>)>) -> Seq<(Seq<char>, Seq<Seq<char>>)> {
    v.map_values(|p: (String, Vec<String>)| (p.0@, crate::text::strs(p.1@)))
}

/// Maps every service address to the employee that owns it.
pub fn build_address_map(employees: &Vec<(String, Vec<String>)>) -> (m: Vec<(String, String)>)
    ensures
        pair_views(m@) == address_table(employee_views(employees@)),
{
    let ghost ev = employee_views(employees@);
    let mut m: Vec<(String, String)> = Vec::new();
    let mut i: usize = 0;
    while i < employees.len()
        invariant
            i <= ev.len(),
            ev == employee_views(employees@),
            pair_views(m@) == address_table(ev.take(i as int)),
        decreases ev.len() - i,
    {
        proof {
            assert(ev.take(i + 1).drop_last() =~= ev.take(i as int));
            assert(ev.take(i + 1).last() == ev[i as int]);
        }
        let id = &employees[i].0;
        let addrs = &employees[i].1;
        let ghost av = crate::text::strs(addrs@);
        let ghost base = pair_views(m@);
        let mut j: usize = 0;
        while j < addrs.len()
            invariant
                j <= av.len(),
                av == crate::text::strs(addrs@),
                pair_views(m@) == insert_addresses(base, id@, av.take(j as int)),
            decreases av.len() - j,
        {
            proof {
                assert(av.take(j + 1).drop_last() =~= av.take(j as int));
                assert(av.take(j + 1).last() == addrs@[j as int]@);
            }
            let a = &addrs[j];
            let k = find_address_exec(&m, a.as_str());
            let ghost before = pair_views(m@);
            if k < m.len() {
                m.set(k, (a.clone(), id.clone()));
                proof {
                    assert(pair_views(m@) =~= before.update(k as int, (a@, id@)));
                }
            } else {
                m.push((a.clone(), id.clone()));
                proof {
                    assert(pair_views(m@) =~= before.push((a@, id@)));
                }
            }
            j = j + 1;
        }
        proof {
            assert(av.take(av.len() as int) =~= av);
        }
        i = i + 1;
    }
    proof {
        assert(ev.take(ev.len() as int) =~= ev);
    }
    m
}


/// `tenant:employee:channel:` — the start of every dedupe key.
pub open spec fn dedupe_prefix(tenant_id: Seq<char>, employee_id: Seq<char>, channel: Channel) -> Seq<char> {
    tenant_id + ":"@ + employee_id + ":"@ + channel_name(channel) + ":"@
}

/// Key under which the queue recognises a repeated delivery: the external
/// message id when there is one, else the MD5 of the raw payload, else a fresh UUID.
pub fn build_dedupe_key(
    tenant_id: &str,
    employee_id: &str,
    channel: Channel,
    external_message_id: Option<&str>,
    raw_payload: &[u8],
) -> (r: String)
    ensures
        external_message_id matches Some(id) ==> r@ == dedupe_prefix(tenant_id@, employee_id@, channel) + id@,
        external_message_id is None && raw_payload@.len() > 0 ==> r@ == dedupe_prefix(
            tenant_id@,
            employee_id@,
            channel,
        ) + crate::digest::hex_lower(crate::digest::md5_digest(raw_payload@)),
        external_message_id is None && raw_payload@.len() == 0 ==> {
            let p = dedupe_prefix(tenant_id@, employee_id@, channel);
            r@.len() == p.len() + 36 && r@.take(p.len() as int) == p
        },
{
    let base = match external_message_id {
        Some(id) => owned(id),
        None => if raw_payload.len() > 0 {
            crate::digest::md5_hex(raw_payload)
        } else {
            crate::digest::new_uuid_v4()
        },
    };
    let mut key = crate::text::concat3(tenant_id, ":", employee_id);
    key.append(":");
    key.append(channel.as_str());
    key.append(":");
    let ghost p = key@;
    key.append(base.as_str());
    proof {
        assert(p =~= dedupe_prefix(tenant_id@, employee_id@, channel));
        assert(key@.take(p.len() as int) =~= p);
    }
    key
}

/// A file shared in a Slack message.
#[derive(Debug, Clone, PartialEq, Eq)]
pub struct SlackFile {
    pub id: Option<String>,
    pub name: Option<String>,
    pub mimetype: Option<String>,
    pub url_private: Option<String>,
}

/// The inner event of a Slack Events API callback.
#[derive(Debug, Clone, PartialEq, Eq)]
pub struct SlackMessageEvent {
    pub event_type: String,
    pub subtype: Option<String>,
    pub channel: Option<String>,
    pub user: Option<String>,
    pub text: Option<String>,
    pub ts: String,
    pub thread_ts: Option<String>,
    pub bot_id: Option<String>,
    pub app_id: Option<String>,
    pub files: Option<Vec<SlackFile>>,
    pub channel_type: Option<String>,
    pub event_ts: Option<String>,
}

/// A Slack Events API callback.
#[derive(Debug, Clone, PartialEq, Eq)]
pub struct SlackEventWrapper {
    pub event_type: String,
    pub challenge: Option<String>,
    pub token: Option<String>,
    pub team_id: Option<String>,
    pub api_app_id: Option<String>,
    pub event: Option<SlackMessageEvent>,
    pub event_id: Option<String>,
    pub event_time: Option<i64>,
}

/// `<@bot>` with the bot id trimmed.
pub open spec fn mention_of(bot: Seq<char>) -> Seq<char> {
    "<@"@ + trim(bot) + ">"@
}

/// A Slack event is queued when it is an app mention, a direct (or group direct)
/// message, or a channel message that mentions the bot; events with a subtype are not.
pub open spec fn slack_should_enqueue(w: SlackEventWrapper, bot_user_id: Option<Seq<char>>) -> bool {
    match w.event {
        None => false,
        Some(e) => {
            &&& e.subtype is None
            &&& {
                ||| e.event_type@ == "app_mention"@
                ||| e.event_type@ == "message"@ && {
                    ||| opt_str(e.channel_type) == Some("im"@)
                    ||| opt_str(e.channel_type) == Some("mpim"@)
                    ||| match (bot_user_id, e.text) {
                        (Some(b), Some(t)) => contains(t@, mention_of(b)),
                        _ => false,
                    }
                }
            }
        },
    }
}

/// Whether a Slack event should be queued for the employee whose bot is `bot_user_id`.
pub fn should_enqueue_slack_message(wrapper: &SlackEventWrapper, bot_user_id: Option<&str>) -> (b: bool)
    ensures
        b == slack_should_enqueue(*wrapper, match bot_user_id {
            Some(x) => Some(x@),
            None => None,
        }),
{
    let event = match &wrapper.event {
        Some(e) => e,
        None => return false,
    };
    if event.subtype.is_some() {
        return false;
    }
    let et = event.event_type.as_str();
    if crate::text::str_eq(et, "app_mention") {
        return true;
    }
    if !crate::text::str_eq(et, "message") {
        return false;
    }
    match &event.channel_type {
        Some(ct) => {
            if crate::text::str_eq(ct.as_str(), "im") || crate::text::str_eq(ct.as_str(), "mpim") {
                return true;
            }
        },
        None => {},
    }
    let bot = match bot_user_id {
        Some(b) => b,
        None => return false,
    };
    let tb = crate::text::trim_str(bot);
    let mention = crate::text::concat3("<@", tb.as_str(), ">");
    match &event.text {
        Some(t) => crate::text::str_contains(t.as_str(), mention.as_str()),
        None => false,
    }
}

/// `-` replaced by `_`.
pub open spec fn dashes_to_underscores(s: Seq<char>) -> Seq<char> {
    s.map_values(|c: char| if c == '-' { '_' } else { c })
}

/// The setting that holds an employee's Slack bot user: the employee id
/// upper-cased with `-` as `_`, then `_SLACK_BOT_USER_ID`.
pub fn slack_bot_user_key(employee_id: &str) -> (r: String)
    ensures
        r@ == dashes_to_underscores(crate::google_auth::unicode_upper(employee_id@)) + "_SLACK_BOT_USER_ID"@,
{
    let u = crate::google_auth::upper(employee_id);
    let v = crate::text::to_chars(u.as_str());
    let mut w: Vec<char> = Vec::new();
    let mut i: usize = 0;
    while i < v.len()
        invariant
            i <= v@.len(),
            w@ == dashes_to_underscores(v@.take(i as int)),
        decreases v@.len() - i,
    {
        let c = v[i];
        w.push(if c == '-' { '_' } else { c });
        i = i + 1;
        proof {
            assert(dashes_to_underscores(v@.take(i as int)) =~= dashes_to_underscores(v@.take(i - 1)).push(
                if v@[i - 1] == '-' { '_' } else { v@[i - 1] },
            ));
        }
    }
    proof {
        assert(v@.take(v@.len() as int) =~= v@);
    }
    let w = crate::text::from_chars(w.as_slice());
    crate::text::concat2(w.as_str(), "_SLACK_BOT_USER_ID")
}

/// The Slack bot user of an employee: the employee's own setting, else the
/// shared one, each trimmed and taken only when not blank.
pub fn resolve_slack_bot_user_id(for_employee: Option<String>, shared: Option<String>) -> (r: Option<String>)
    ensures
        opt_str(r) == (if crate::env_alias::trimmed_value(opt_str(for_employee)) is Some {
            crate::env_alias::trimmed_value(opt_str(for_employee))
        } else {
            crate::env_alias::trimmed_value(opt_str(shared))
        }),
{
    if let Some(e) = &for_employee {
        if !crate::text::is_blank(e.as_str()) {
            return Some(crate::text::trim_string(e));
        }
    }
    if let Some(s) = &shared {
        if !crate::text::is_blank(s.as_str()) {
            return Some(crate::text::trim_string(s));
        }
    }
    None
}

/// An address of a header names a mailbox that takes no replies: one of its
/// pieces holds an `@` and, lower-cased, contains `noreply`, `no-reply` or
/// `do-not-reply`.
pub open spec fn names_no_reply(value: Seq<char>) -> bool {
    exists|i: int| 0 <= i < crate::github_inbound::address_tokens(value).len() && no_reply_address(
        #[trigger] crate::github_inbound::address_tokens(value)[i],
    )
}

pub open spec fn no_reply_address(t: Seq<char>) -> bool {
    let l = lower_seq(trim(t));
    &&& t.contains('@')
    &&& (contains(l, "noreply"@) || contains(l, "no-reply"@) || contains(l, "do-not-reply"@))
}

/// Whether a sender or reply-to header names a mailbox that takes no replies.
pub fn contains_no_reply_marker(value: &str) -> (r: bool)
    ensures
        r == names_no_reply(value@),
{
    let tokens = crate::github_inbound::address_token_list(value);
    let ghost ts = crate::github_inbound::address_tokens(value@);
    let m1 = crate::text::to_chars("noreply");
    let m2 = crate::text::to_chars("no-reply");
    let m3 = crate::text::to_chars("do-not-reply");
    let mut i: usize = 0;
    while i < tokens.len()
        invariant
            i <= tokens@.len(),
            crate::github_inbound::token_views(tokens@) == ts,
            ts == crate::github_inbound::address_tokens(value@),
            m1@ == "noreply"@,
            m2@ == "no-reply"@,
            m3@ == "do-not-reply"@,
            forall|k: int| 0 <= k < i ==> !no_reply_address(#[trigger] ts[k]),
        decreases tokens@.len() - i,
    {
        let t = &tokens[i];
        proof {
            assert(ts[i as int] == crate::github_inbound::token_views(tokens@)[i as int]);
        }
        let mut has_at = false;
        let mut j: usize = 0;
        while j < t.len()
            invariant
                j <= t@.len(),
                has_at == (exists|q: int| 0 <= q < j && t@[q] == '@'),
            decreases t@.len() - j,
        {
            if t[j] == '@' {
                has_at = true;
            }
            j = j + 1;
        }
        proof {
            if has_at {
                let q = choose|q: int| 0 <= q < t@.len() && t@[q] == '@';
                assert(t@.contains('@'));
            } else {
                assert(!t@.contains('@'));
            }
        }
        let trimmed = crate::text::trim_chars(t.as_slice());
        let l = crate::text::lower_chars(trimmed.as_slice());
        if has_at && (crate::text::contains_chars(l.as_slice(), m1.as_slice()) || crate::text::contains_chars(
            l.as_slice(),
            m2.as_slice(),
        ) || crate::text::contains_chars(l.as_slice(), m3.as_slice())) {
            proof {
                assert(no_reply_address(crate::github_inbound::address_tokens(value@)[i as int]));
            }
            return true;
        }
        i = i + 1;
    }
    false
}

/// Whether a Postmark payload (raw JSON) comes from, or asks replies to go
/// to, a mailbox that takes no replies (its `From` and `ReplyTo` fields).
pub open spec fn payload_no_reply(raw: Seq<u8>) -> bool {
    (crate::github_inbound::payload_text(raw, "From"@) matches Some(f) && names_no_reply(f))
        || (crate::github_inbound::payload_text(raw, "ReplyTo"@) matches Some(t) && names_no_reply(t))
}

pub fn payload_contains_no_reply_marker(raw: &[u8]) -> (r: bool)
    ensures
        r == payload_no_reply(raw@),
{
    let from = match crate::github_inbound::json_text_at(raw, "From") {
        Some(Some(f)) => contains_no_reply_marker(f.as_str()),
        _ => false,
    };
    if from {
        return true;
    }
    match crate::github_inbound::json_text_at(raw, "ReplyTo") {
        Some(Some(t)) => contains_no_reply_marker(t.as_str()),
        _ => false,
    }
}

} // verus!
