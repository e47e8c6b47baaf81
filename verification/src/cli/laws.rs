//! Laws of the configuration of a Guard that is kept in step with the gateway.

use vstd::prelude::*;
use crate::addr::IpAddr;
use crate::cli::document::{TomlDocModel, TomlValueModel};
use crate::cli::guard_config::{
    ConfigModel,
    RawAllow,
    RawChecksumBin,
    RawConfig,
    RawExempt,
    RawExpose,
    RawRateLimit,
    RemoteAllow,
    RemoteCheckSum,
    RemoteConfig,
    NANOS_PER_SEC,
};

verus! {

/// The fields of a table, or of a list that gives them in the order of their names.
pub open spec fn fields_of(v: TomlValueModel, names: Seq<Seq<char>>) -> Option<
    Map<Seq<char>, TomlValueModel>,
> {
    match v {
        TomlValueModel::Table(fields) => Some(fields),
        TomlValueModel::List(list) => Some(
            crate::cli::document::fields_map(
                Seq::new(
                    if list.len() < names.len() {
                        list.len()
                    } else {
                        names.len()
                    },
                    |i: int| (names[i], list[i]),
                ),
            ),
        ),
        _ => None,
    }
}

/// Whether a field is this text, or is missing.
pub open spec fn says_text(
    fields: Map<Seq<char>, TomlValueModel>,
    key: Seq<char>,
    text: Option<Seq<char>>,
) -> bool {
    match text {
        Some(text) => fields.contains_key(key) && fields[key] == TomlValueModel::Text(text),
        None => !fields.contains_key(key),
    }
}

/// Whether a field is this integer.
pub open spec fn says_integer(
    fields: Map<Seq<char>, TomlValueModel>,
    key: Seq<char>,
    n: int,
) -> bool {
    fields.contains_key(key) && fields[key] is Integer && fields[key]->Integer_0 == n
}

/// Whether a field is these texts. There is none in a field that is missing.
pub open spec fn says_texts(
    fields: Map<Seq<char>, TomlValueModel>,
    key: Seq<char>,
    texts: Seq<Seq<char>>,
) -> bool {
    if fields.contains_key(key) {
        fields[key] == crate::cli::document::texts_value(texts)
    } else {
        texts.len() == 0
    }
}

/// The addresses of a rate limit, as they were written.
pub open spec fn exempt_texts(exempt: Seq<RawExempt>) -> Seq<Seq<char>> {
    Seq::new(exempt.len(), |i: int| exempt[i].text@)
}

/// Whether a rate limit with these fields says this. A field that is missing has its default.
pub open spec fn says_rate_limit(
    fields: Map<Seq<char>, TomlValueModel>,
    raw: RawRateLimit,
) -> bool {
    &&& if fields.contains_key("max"@) {
        says_integer(fields, "max"@, raw.max as int)
    } else {
        raw.max == crate::rate_limit::DEFAULT_MAX_PER_WINDOW
    }
    &&& if fields.contains_key("window_secs"@) {
        says_integer(fields, "window_secs"@, raw.window_secs as int)
    } else {
        raw.window_secs * NANOS_PER_SEC == crate::rate_limit::DEFAULT_WINDOW
    }
    &&& says_texts(fields, "exempt"@, exempt_texts(raw.exempt@))
}

/// Whether an authorised peer is written like this.
pub open spec fn says_allow(v: TomlValueModel, raw: RawAllow) -> bool {
    fields_of(v, seq!["peer"@, "roles"@]) matches Some(fields) && says_text(
        fields,
        "peer"@,
        Some(raw.peer@),
    ) && says_texts(fields, "roles"@, crate::protocol::texts(raw.roles@))
}

/// Whether an exposed service is written like this.
pub open spec fn says_expose(v: TomlValueModel, raw: RawExpose) -> bool {
    fields_of(v, seq!["name"@, "port"@, "role"@]) matches Some(fields) && says_text(
        fields,
        "name"@,
        Some(raw.name@),
    ) && says_integer(fields, "port"@, raw.port as int) && says_text(
        fields,
        "role"@,
        crate::text::opt_text(raw.role),
    )
}

/// Whether an expected fingerprint is written like this.
pub open spec fn says_checksum(v: TomlValueModel, raw: RawChecksumBin) -> bool {
    fields_of(v, seq!["peer"@, "sha256"@]) matches Some(fields) && says_text(
        fields,
        "peer"@,
        Some(raw.peer@),
    ) && says_text(fields, "sha256"@, Some(raw.sha256@))
}

/// The values of a list at the root. There is none in one that is missing.
pub open spec fn list_at(doc: TomlDocModel, name: Seq<char>) -> Option<Seq<TomlValueModel>> {
    if !doc.content.contains_key(name) {
        Some(Seq::empty())
    } else if doc.content[name] is List {
        Some(doc.content[name]->List_0)
    } else {
        None
    }
}

/// Whether a file with this content says this, whether its tables have headers or are written
/// with dotted keys, inline or as lists. What is missing has its default. This is the format of
/// the file, which is deserialised outside of the library.
pub open spec fn says(doc: TomlDocModel, raw: RawConfig) -> bool {
    &&& if doc.content.contains_key("listen"@) {
        says_text(doc.content, "listen"@, Some(raw.listen@))
    } else {
        raw.listen@ == "/ip4/0.0.0.0/tcp/4588"@
    }
    &&& says_limits(doc, raw.rate_limit)
    &&& list_at(doc, "allow"@) is Some
    &&& says_allows(list_at(doc, "allow"@)->0, raw.allow@)
    &&& list_at(doc, "expose"@) is Some
    &&& says_exposes(list_at(doc, "expose"@)->0, raw.expose@)
    &&& list_at(doc, "checksum_bin"@) is Some
    &&& says_checksums(list_at(doc, "checksum_bin"@)->0, raw.checksum_bin@)
    &&& says_text(doc.content, "relay"@, crate::text::opt_text(raw.relay))
    &&& says_text(doc.content, "namespace"@, crate::text::opt_text(raw.namespace))
}

/// Whether a file says this of the rate limit.
pub open spec fn says_limits(doc: TomlDocModel, raw: RawRateLimit) -> bool {
    if doc.content.contains_key("rate_limit"@) {
        fields_of(
            doc.content["rate_limit"@],
            seq!["max"@, "window_secs"@, "exempt"@],
        ) matches Some(fields) && says_rate_limit(fields, raw)
    } else {
        says_rate_limit(Map::empty(), raw)
    }
}

/// Whether the authorised peers are written like this.
pub open spec fn says_allows(list: Seq<TomlValueModel>, raw: Seq<RawAllow>) -> bool {
    &&& raw.len() == list.len()
    &&& forall|i: int| 0 <= i < raw.len() ==> says_allow(list[i], #[trigger] raw[i])
}

/// Whether the exposed services are written like this.
pub open spec fn says_exposes(list: Seq<TomlValueModel>, raw: Seq<RawExpose>) -> bool {
    &&& raw.len() == list.len()
    &&& forall|i: int| 0 <= i < raw.len() ==> says_expose(list[i], #[trigger] raw[i])
}

/// Whether the expected fingerprints are written like this.
pub open spec fn says_checksums(list: Seq<TomlValueModel>, raw: Seq<RawChecksumBin>) -> bool {
    &&& raw.len() == list.len()
    &&& forall|i: int| 0 <= i < raw.len() ==> says_checksum(list[i], #[trigger] raw[i])
}

/// Whether two files say the same, apart from the rate limit, the whitelist and the
/// expected fingerprints.
spec fn same_rest(a: RawConfig, b: RawConfig) -> bool {
    &&& a.listen@ == b.listen@
    &&& a.expose@.len() == b.expose@.len()
    &&& forall|i: int|
        0 <= i < a.expose@.len() ==> (#[trigger] a.expose@[i]).name@ == b.expose@[i].name@
            && a.expose@[i].port == b.expose@[i].port && crate::text::opt_text(a.expose@[i].role)
            == crate::text::opt_text(b.expose@[i].role)
    &&& crate::text::opt_text(a.relay) == crate::text::opt_text(b.relay)
    &&& crate::text::opt_text(a.namespace) == crate::text::opt_text(b.namespace)
}

/// Whether the peers and fingerprints of a remote configuration are valid, and its window
/// is one that a TOML document can hold.
pub open spec fn remote_valid(remote: RemoteConfig) -> bool {
    &&& 0 < remote.rate_limit.window_secs <= i64::MAX
    &&& forall|i: int|
        0 <= i < remote.allow@.len() ==> crate::peer::peer_id_of_text(
            (#[trigger] remote.allow@[i]).peer@,
        ) is Ok
    &&& forall|i: int|
        0 <= i < remote.check_sum@.len() ==> crate::peer::peer_id_of_text(
            (#[trigger] remote.check_sum@[i]).peer@,
        ) is Ok && crate::cli::guard_config::sha256_of(remote.check_sum@[i].sha256@) is Ok
}

/// The whitelist of a remote configuration. A peer that occurs twice has its last roles.
pub open spec fn remote_whitelist(allow: Seq<RemoteAllow>) -> Map<Seq<u8>, Seq<Seq<char>>>
    decreases allow.len(),
{
    if allow.len() == 0 {
        Map::empty()
    } else {
        remote_whitelist(allow.drop_last()).insert(
            crate::peer::peer_id_of_text(allow.last().peer@)->Ok_0,
            crate::protocol::texts(allow.last().roles@),
        )
    }
}

/// The expected fingerprints of a remote configuration, in order.
pub open spec fn remote_checksums(sums: Seq<RemoteCheckSum>) -> Seq<(Seq<u8>, Seq<u8>)> {
    Seq::new(
        sums.len(),
        |i: int|
            (
                crate::peer::peer_id_of_text(sums[i].peer@)->Ok_0,
                crate::cli::guard_config::sha256_of(sums[i].sha256@)->Ok_0,
            ),
    )
}

/// The exempt addresses of a file, as they were read.
pub open spec fn exempt_addresses(exempt: Seq<RawExempt>) -> Seq<IpAddr> {
    Seq::new(exempt.len(), |i: int| exempt[i].parsed->Ok_0)
}

proof fn lemma_exempt(exempt: Seq<RawExempt>)
    requires
        forall|i: int| 0 <= i < exempt.len() ==> (#[trigger] exempt[i]).parsed is Ok,
    ensures
        crate::cli::guard_config::exempts(exempt) == Ok::<Seq<IpAddr>, Seq<char>>(
            exempt_addresses(exempt),
        ),
    decreases exempt.len(),
{
    if exempt.len() > 0 {
        let front = exempt.drop_last();
        assert forall|i: int| 0 <= i < front.len() implies (#[trigger] front[i]).parsed is Ok by {
            assert(front[i] == exempt[i]);
        }
        lemma_exempt(front);
        assert(exempt.last() == exempt[exempt.len() - 1]);
        assert(exempt_addresses(exempt) =~= exempt_addresses(front).push(
            exempt.last().parsed->Ok_0,
        ));
    } else {
        assert(exempt_addresses(exempt) =~= Seq::empty());
    }
}

proof fn lemma_allow(
    raw: Seq<RawAllow>,
    readings: Seq<core::result::Result<Seq<u8>, Seq<char>>>,
    allow: Seq<RemoteAllow>,
)
    requires
        raw.len() == allow.len(),
        raw.len() == readings.len(),
        forall|i: int|
            0 <= i < raw.len() ==> (#[trigger] readings[i]) is Ok && readings[i]
                == crate::peer::peer_id_of_text(allow[i].peer@),
        forall|i: int|
            0 <= i < raw.len() ==> crate::protocol::texts((#[trigger] raw[i]).roles@)
                == crate::protocol::texts(allow[i].roles@),
    ensures
        crate::cli::guard_config::allows(raw, readings) == Ok::<
            Map<Seq<u8>, Seq<Seq<char>>>,
            Seq<char>,
        >(remote_whitelist(allow)),
    decreases raw.len(),
{
    if raw.len() > 0 {
        let (r, d, a) = (raw.drop_last(), readings.drop_last(), allow.drop_last());
        assert forall|i: int| 0 <= i < r.len() implies (#[trigger] d[i]) is Ok && d[i]
            == crate::peer::peer_id_of_text(a[i].peer@) by {
            assert(d[i] == readings[i]);
        }
        assert forall|i: int| 0 <= i < r.len() implies crate::protocol::texts(
            (#[trigger] r[i]).roles@,
        ) == crate::protocol::texts(a[i].roles@) by {
            assert(r[i] == raw[i]);
        }
        lemma_allow(r, d, a);
        let items = crate::cli::guard_config::read_as(raw, readings);
        assert(items.drop_last() =~= crate::cli::guard_config::read_as(r, d));
        let n = raw.len() - 1;
        assert(items.last() == (raw[n], readings[n]));
    }
}

proof fn lemma_checksum(
    raw: Seq<RawChecksumBin>,
    readings: Seq<core::result::Result<Seq<u8>, Seq<char>>>,
    sums: Seq<RemoteCheckSum>,
)
    requires
        raw.len() == sums.len(),
        raw.len() == readings.len(),
        forall|i: int|
            0 <= i < raw.len() ==> (#[trigger] readings[i]) is Ok && readings[i]
                == crate::peer::peer_id_of_text(sums[i].peer@),
        forall|i: int|
            0 <= i < raw.len() ==> (#[trigger] raw[i]).sha256@ == sums[i].sha256@
                && crate::cli::guard_config::sha256_of(raw[i].sha256@) is Ok,
    ensures
        crate::cli::guard_config::checksums(raw, readings) == Ok::<
            Seq<(Seq<u8>, Seq<u8>)>,
            Seq<char>,
        >(remote_checksums(sums)),
    decreases raw.len(),
{
    if raw.len() > 0 {
        let (r, d, s) = (raw.drop_last(), readings.drop_last(), sums.drop_last());
        assert forall|i: int| 0 <= i < r.len() implies (#[trigger] d[i]) is Ok && d[i]
            == crate::peer::peer_id_of_text(s[i].peer@) by {
            assert(d[i] == readings[i]);
        }
        assert forall|i: int| 0 <= i < r.len() implies (#[trigger] r[i]).sha256@ == s[i].sha256@
            && crate::cli::guard_config::sha256_of(r[i].sha256@) is Ok by {
            assert(r[i] == raw[i]);
        }
        lemma_checksum(r, d, s);
        let items = crate::cli::guard_config::read_as(raw, readings);
        assert(items.drop_last() =~= crate::cli::guard_config::read_as(r, d));
        let n = raw.len() - 1;
        assert(items.last() == (raw[n], readings[n]));
        assert(remote_checksums(sums) =~= remote_checksums(s).push(
            (
                crate::peer::peer_id_of_text(sums[n].peer@)->Ok_0,
                crate::cli::guard_config::sha256_of(sums[n].sha256@)->Ok_0,
            ),
        ));
    } else {
        assert(remote_checksums(sums) =~= Seq::empty());
    }
}

proof fn lemma_expose(a: Seq<RawExpose>, b: Seq<RawExpose>)
    requires
        a.len() == b.len(),
        forall|i: int|
            0 <= i < a.len() ==> (#[trigger] a[i]).name@ == b[i].name@ && a[i].port == b[i].port
                && crate::text::opt_text(a[i].role) == crate::text::opt_text(b[i].role),
    ensures
        crate::cli::guard_config::exposes(a) == crate::cli::guard_config::exposes(b),
    decreases a.len(),
{
    if a.len() > 0 {
        let (x, y) = (a.drop_last(), b.drop_last());
        assert forall|i: int| 0 <= i < x.len() implies (#[trigger] x[i]).name@ == y[i].name@
            && x[i].port == y[i].port && crate::text::opt_text(x[i].role)
            == crate::text::opt_text(y[i].role) by {
            assert(x[i] == a[i]);
        }
        lemma_expose(x, y);
        assert(a.last() == a[a.len() - 1]);
    }
}

/// The names of the sections and fields of a file differ.
proof fn lemma_names()
    ensures
        "rate_limit"@ != "allow"@,
        "rate_limit"@ != "checksum_bin"@,
        "allow"@ != "checksum_bin"@,
        "expose"@ != "allow"@,
        "expose"@ != "checksum_bin"@,
        "expose"@ != "rate_limit"@,
        "listen"@ != "rate_limit"@,
        "listen"@ != "allow"@,
        "listen"@ != "checksum_bin"@,
        "relay"@ != "rate_limit"@,
        "relay"@ != "allow"@,
        "relay"@ != "checksum_bin"@,
        "namespace"@ != "rate_limit"@,
        "namespace"@ != "allow"@,
        "namespace"@ != "checksum_bin"@,
        "max"@ != "window_secs"@,
        "max"@ != "exempt"@,
        "window_secs"@ != "exempt"@,
        "peer"@ != "roles"@,
        "peer"@ != "sha256"@,
{
    reveal_strlit("rate_limit");
    reveal_strlit("allow");
    reveal_strlit("checksum_bin");
    reveal_strlit("expose");
    reveal_strlit("listen");
    reveal_strlit("relay");
    reveal_strlit("namespace");
    reveal_strlit("max");
    reveal_strlit("window_secs");
    reveal_strlit("exempt");
    reveal_strlit("peer");
    reveal_strlit("roles");
    reveal_strlit("sha256");
    assert("rate_limit"@.len() == 10);
    assert("allow"@.len() == 5);
    assert("checksum_bin"@.len() == 12);
    assert("expose"@.len() == 6);
    assert("listen"@.len() == 6);
    assert("relay"@.len() == 5);
    assert("namespace"@.len() == 9);
    assert("max"@.len() == 3);
    assert("window_secs"@.len() == 11);
    assert("exempt"@.len() == 6);
    assert("peer"@.len() == 4);
    assert("roles"@.len() == 5);
    assert("sha256"@.len() == 6);
    assert("relay"@[0] != "allow"@[0]);
}

/// The fields that a list of two or three gives.
proof fn lemma_fields_map(fields: Seq<(Seq<char>, TomlValueModel)>)
    ensures
        fields.len() == 2 ==> crate::cli::document::fields_map(fields) == Map::<
            Seq<char>,
            TomlValueModel,
        >::empty().insert(fields[0].0, fields[0].1).insert(fields[1].0, fields[1].1),
        fields.len() == 3 ==> crate::cli::document::fields_map(fields) == Map::<
            Seq<char>,
            TomlValueModel,
        >::empty().insert(fields[0].0, fields[0].1).insert(fields[1].0, fields[1].1).insert(
            fields[2].0,
            fields[2].1,
        ),
{
    reveal_with_fuel(crate::cli::document::fields_map, 4);
}

/// The content of a document in which the sections of a remote configuration are set.
proof fn lemma_content(doc: TomlDocModel, remote: RemoteConfig)
    ensures
        ({
            let sections = crate::cli::guard_config::remote_sections(remote);
            let after = doc.with_sections(sections);
            &&& crate::cli::document::same_at(doc, after, "listen"@)
            &&& crate::cli::document::same_at(doc, after, "relay"@)
            &&& crate::cli::document::same_at(doc, after, "namespace"@)
            &&& crate::cli::document::same_at(doc, after, "expose"@)
            &&& after.content.contains_key("rate_limit"@)
            &&& after.content["rate_limit"@] == TomlValueModel::Table(
                crate::cli::document::fields_map(sections[0].1->Table_0),
            )
            &&& list_at(after, "allow"@) == Some(
                Seq::new(
                    remote.allow@.len(),
                    |i: int|
                        TomlValueModel::Table(
                            crate::cli::document::fields_map(
                                crate::cli::guard_config::allow_fields(remote.allow@[i]),
                            ),
                        ),
                ),
            )
            &&& list_at(after, "checksum_bin"@) == Some(
                Seq::new(
                    remote.check_sum@.len(),
                    |i: int|
                        TomlValueModel::Table(
                            crate::cli::document::fields_map(
                                crate::cli::guard_config::checksum_fields(remote.check_sum@[i]),
                            ),
                        ),
                ),
            )
        }),
{
    lemma_names();
    let sections = crate::cli::guard_config::remote_sections(remote);
    let two = sections.drop_last();
    let one = two.drop_last();
    assert(one.drop_last() =~= Seq::empty());
    let limited = doc.with_section(sections[0].0, sections[0].1);
    let allowed = limited.with_section(sections[1].0, sections[1].1);
    let after = allowed.with_section(sections[2].0, sections[2].1);
    assert(one.last() == sections[0] && two.last() == sections[1]);
    assert(doc.with_sections(one.drop_last()) == doc);
    assert(doc.with_sections(one) == limited);
    assert(doc.with_sections(two) == allowed);
    assert(doc.with_sections(sections) == after);
    crate::cli::document::other_sections_stay(doc, sections, "listen"@);
    crate::cli::document::other_sections_stay(doc, sections, "relay"@);
    crate::cli::document::other_sections_stay(doc, sections, "namespace"@);
    crate::cli::document::other_sections_stay(doc, sections, "expose"@);
    assert(list_at(after, "allow"@)->0 =~= Seq::new(
        remote.allow@.len(),
        |i: int|
            TomlValueModel::Table(
                crate::cli::document::fields_map(
                    crate::cli::guard_config::allow_fields(remote.allow@[i]),
                ),
            ),
    ));
    assert(list_at(after, "checksum_bin"@)->0 =~= Seq::new(
        remote.check_sum@.len(),
        |i: int|
            TomlValueModel::Table(
                crate::cli::document::fields_map(
                    crate::cli::guard_config::checksum_fields(remote.check_sum@[i]),
                ),
            ),
    ));
}

/// A list of texts is that of its texts only.
proof fn lemma_texts_value(a: Seq<Seq<char>>, b: Seq<Seq<char>>)
    requires
        crate::cli::document::texts_value(a) == crate::cli::document::texts_value(b),
    ensures
        a == b,
{
    let x = crate::cli::document::texts_value(a)->List_0;
    let y = crate::cli::document::texts_value(b)->List_0;
    assert(a.len() == x.len() && b.len() == y.len());
    assert forall|i: int| 0 <= i < a.len() implies a[i] == b[i] by {
        assert(x[i] == TomlValueModel::Text(a[i]));
        assert(y[i] == TomlValueModel::Text(b[i]));
    }
    assert(a =~= b);
}

/// What a file in which a remote configuration is applied says.
proof fn lemma_sections(
    doc: TomlDocModel,
    before: RawConfig,
    after: RawConfig,
    remote: RemoteConfig,
)
    requires
        says(doc, before),
        says(doc.with_sections(crate::cli::guard_config::remote_sections(remote)), after),
        remote.rate_limit.window_secs <= i64::MAX,
    ensures
        same_rest(before, after),
        after.rate_limit.max == remote.rate_limit.max,
        after.rate_limit.window_secs == remote.rate_limit.window_secs,
        exempt_texts(after.rate_limit.exempt@) == crate::protocol::texts(remote.rate_limit.exempt@),
        after.allow@.len() == remote.allow@.len(),
        forall|i: int|
            0 <= i < after.allow@.len() ==> (#[trigger] after.allow@[i]).peer@
                == remote.allow@[i].peer@ && crate::protocol::texts(after.allow@[i].roles@)
                == crate::protocol::texts(remote.allow@[i].roles@),
        after.checksum_bin@.len() == remote.check_sum@.len(),
        forall|i: int|
            0 <= i < after.checksum_bin@.len() ==> (#[trigger] after.checksum_bin@[i]).peer@
                == remote.check_sum@[i].peer@ && after.checksum_bin@[i].sha256@
                == remote.check_sum@[i].sha256@,
{
    lemma_names();
    lemma_content(doc, remote);
    let sections = crate::cli::guard_config::remote_sections(remote);
    let content = doc.with_sections(sections);
    lemma_fields_map(sections[0].1->Table_0);
    lemma_texts_value(
        exempt_texts(after.rate_limit.exempt@),
        crate::protocol::texts(remote.rate_limit.exempt@),
    );
    assert forall|i: int| 0 <= i < after.allow@.len() implies (#[trigger] after.allow@[i]).peer@
        == remote.allow@[i].peer@ && crate::protocol::texts(after.allow@[i].roles@)
        == crate::protocol::texts(remote.allow@[i].roles@) by {
        lemma_fields_map(crate::cli::guard_config::allow_fields(remote.allow@[i]));
        assert(says_allow((list_at(content, "allow"@)->0)[i], after.allow@[i]));
        lemma_texts_value(
            crate::protocol::texts(after.allow@[i].roles@),
            crate::protocol::texts(remote.allow@[i].roles@),
        );
    }
    assert forall|i: int| 0 <= i < after.checksum_bin@.len() implies (
    #[trigger] after.checksum_bin@[i]).peer@ == remote.check_sum@[i].peer@
        && after.checksum_bin@[i].sha256@ == remote.check_sum@[i].sha256@ by {
        lemma_fields_map(crate::cli::guard_config::checksum_fields(remote.check_sum@[i]));
        assert(says_checksum((list_at(content, "checksum_bin"@)->0)[i], after.checksum_bin@[i]));
    }
    assert forall|i: int| 0 <= i < before.expose@.len() implies (
    #[trigger] before.expose@[i]).name@ == after.expose@[i].name@ && before.expose@[i].port
        == after.expose@[i].port && crate::text::opt_text(before.expose@[i].role)
        == crate::text::opt_text(after.expose@[i].role) by {
        assert(says_expose((list_at(content, "expose"@)->0)[i], after.expose@[i]));
    }
}

/// A remote configuration that is applied is the one that is loaded. `doc` is the content of a
/// file that is accepted, and `before` what it says; `after` is what the file says once the
/// remote configuration has been applied. Then the limits, the exempt addresses, the whitelist
/// and the fingerprints are the remote ones (an empty remote whitelist empties the whitelist),
/// and the address, the services, the relay and the namespace are those of before.
pub proof fn applied_configuration_is_loaded(
    doc: TomlDocModel,
    before: RawConfig,
    after: RawConfig,
    remote: RemoteConfig,
)
    requires
        says(doc, before),
        crate::cli::guard_config::resolved(before) is Ok,
        says(doc.with_sections(crate::cli::guard_config::remote_sections(remote)), after),
        remote_valid(remote),
        forall|i: int|
            0 <= i < after.rate_limit.exempt@.len() ==> (
            #[trigger] after.rate_limit.exempt@[i]).parsed is Ok,
    ensures
        crate::cli::guard_config::resolved(after) == Ok::<ConfigModel, Seq<char>>(
            ConfigModel {
                rate_limit_max: remote.rate_limit.max,
                rate_limit_window: (remote.rate_limit.window_secs * NANOS_PER_SEC) as u128,
                rate_limit_exempt: exempt_addresses(after.rate_limit.exempt@),
                whitelist: remote_whitelist(remote.allow@),
                checksum_bin: remote_checksums(remote.check_sum@),
                ..crate::cli::guard_config::resolved(before)->Ok_0
            },
        ),
        exempt_texts(after.rate_limit.exempt@) == crate::protocol::texts(remote.rate_limit.exempt@),
        remote.allow@.len() == 0 ==> crate::cli::guard_config::resolved(after)->Ok_0.whitelist
            == Map::<Seq<u8>, Seq<Seq<char>>>::empty(),
{
    lemma_sections(doc, before, after, remote);
    let readings = crate::cli::guard_config::readings_of(after);
    lemma_exempt(after.rate_limit.exempt@);
    assert forall|i: int| 0 <= i < after.allow@.len() implies (
    #[trigger] readings.allow[i]) is Ok && readings.allow[i] == crate::peer::peer_id_of_text(
        remote.allow@[i].peer@,
    ) by {
        assert(after.allow@[i].peer@ == remote.allow@[i].peer@);
    }
    lemma_allow(after.allow@, readings.allow, remote.allow@);
    assert forall|i: int| 0 <= i < after.checksum_bin@.len() implies (
    #[trigger] readings.checksum_bin[i]) is Ok && readings.checksum_bin[i]
        == crate::peer::peer_id_of_text(remote.check_sum@[i].peer@) by {
        assert(after.checksum_bin@[i].peer@ == remote.check_sum@[i].peer@);
    }
    assert forall|i: int| 0 <= i < after.checksum_bin@.len() implies (
    #[trigger] after.checksum_bin@[i]).sha256@ == remote.check_sum@[i].sha256@
        && crate::cli::guard_config::sha256_of(after.checksum_bin@[i].sha256@) is Ok by {}
    lemma_checksum(after.checksum_bin@, readings.checksum_bin, remote.check_sum@);
    lemma_expose(before.expose@, after.expose@);
}

proof fn lemma_exempts_say(v: Seq<RawExempt>)
    ensures
        crate::cli::guard_config::exempts(v) is Ok <==> forall|i: int|
            0 <= i < v.len() ==> (#[trigger] v[i]).parsed is Ok,
        crate::cli::guard_config::exempts(v) matches Ok(done) ==> done.len() == v.len() && (forall|
            i: int,
        |
            0 <= i < v.len() ==> (#[trigger] v[i]).parsed is Ok && v[i].parsed->Ok_0 == done[i]),
    decreases v.len(),
{
    if v.len() > 0 {
        let front = v.drop_last();
        lemma_exempts_say(front);
        assert(v.last() == v[v.len() - 1]);
        assert forall|i: int| 0 <= i < front.len() implies front[i] == #[trigger] v[i] by {}
        if crate::cli::guard_config::exempts(v) is Ok {
            assert forall|i: int| 0 <= i < v.len() implies (#[trigger] v[i]).parsed is Ok
                && v[i].parsed->Ok_0 == crate::cli::guard_config::exempts(v)->Ok_0[i] by {
                if i < front.len() {
                    assert(front[i].parsed is Ok);
                }
            }
        }
        if forall|i: int| 0 <= i < v.len() ==> (#[trigger] v[i]).parsed is Ok {
            assert forall|i: int| 0 <= i < front.len() implies (#[trigger] front[i]).parsed is Ok by {
                assert(v[i].parsed is Ok);
            }
        }
    }
}

proof fn lemma_exposes_say(v: Seq<RawExpose>)
    ensures
        crate::cli::guard_config::exposes(v) is Ok <==> forall|i: int, j: int|
            0 <= i < j < v.len() ==> (#[trigger] v[i]).name@ != (#[trigger] v[j]).name@,
        crate::cli::guard_config::exposes(v) matches Ok(done) ==> done.len() == v.len() && (forall|
            i: int,
        |
            0 <= i < v.len() ==> (#[trigger] done[i]).0 == v[i].name@ && done[i].1 == v[i].port
                && done[i].2 == crate::text::opt_text(v[i].role)),
    decreases v.len(),
{
    if v.len() > 0 {
        let front = v.drop_last();
        let n = v.len() - 1;
        lemma_exposes_say(front);
        assert(v.last() == v[n]);
        assert forall|i: int| 0 <= i < front.len() implies front[i] == #[trigger] v[i] by {}
        let distinct = forall|i: int, j: int|
            0 <= i < j < v.len() ==> (#[trigger] v[i]).name@ != (#[trigger] v[j]).name@;
        if distinct {
            assert forall|i: int, j: int| 0 <= i < j < front.len() implies (
            #[trigger] front[i]).name@ != (#[trigger] front[j]).name@ by {
                assert(v[i].name@ != v[j].name@);
            }
        }
        if crate::cli::guard_config::exposes(front) is Ok {
            let done = crate::cli::guard_config::exposes(front)->Ok_0;
            if distinct {
                assert forall|i: int| 0 <= i < done.len() implies (#[trigger] done[i]).0
                    != v[n].name@ by {
                    assert(v[i].name@ != v[n].name@);
                }
            }
            if crate::cli::guard_config::exposes(v) is Ok {
                let all = crate::cli::guard_config::exposes(v)->Ok_0;
                assert forall|i: int| 0 <= i < v.len() implies (#[trigger] all[i]).0 == v[i].name@
                    && all[i].1 == v[i].port && all[i].2 == crate::text::opt_text(v[i].role) by {
                    if i < front.len() {
                        assert(all[i] == done[i]);
                    }
                }
                assert forall|i: int, j: int| 0 <= i < j < v.len() implies (#[trigger] v[i]).name@
                    != (#[trigger] v[j]).name@ by {
                    assert(done[i].0 == front[i].name@);
                    if j < n {
                        assert(front[i].name@ != front[j].name@);
                    }
                }
            }
        }
    }
}

proof fn lemma_checksums_say(
    v: Seq<RawChecksumBin>,
    readings: Seq<core::result::Result<Seq<u8>, Seq<char>>>,
)
    requires
        v.len() == readings.len(),
    ensures
        crate::cli::guard_config::checksums(v, readings) is Ok <==> forall|i: int|
            0 <= i < v.len() ==> (#[trigger] readings[i]) is Ok
                && crate::cli::guard_config::sha256_of(v[i].sha256@) is Ok,
        crate::cli::guard_config::checksums(v, readings) matches Ok(done) ==> done.len() == v.len()
            && (forall|i: int|
            0 <= i < v.len() ==> readings[i] is Ok && (#[trigger] done[i]).0 == readings[i]->Ok_0
                && crate::cli::guard_config::sha256_of(v[i].sha256@) == Ok::<Seq<u8>, Seq<char>>(
                done[i].1,
            )),
    decreases v.len(),
{
    if v.len() > 0 {
        let (f, r) = (v.drop_last(), readings.drop_last());
        lemma_checksums_say(f, r);
        let items = crate::cli::guard_config::read_as(v, readings);
        assert(items.drop_last() =~= crate::cli::guard_config::read_as(f, r));
        let n = v.len() - 1;
        assert(items.last() == (v[n], readings[n]));
        assert forall|i: int| 0 <= i < n implies f[i] == v[i] && r[i] == #[trigger] readings[i] by {}
        let good = forall|i: int|
            0 <= i < v.len() ==> (#[trigger] readings[i]) is Ok
                && crate::cli::guard_config::sha256_of(v[i].sha256@) is Ok;
        if good {
            assert(readings[n] is Ok);
            assert forall|i: int| 0 <= i < n implies (#[trigger] r[i]) is Ok
                && crate::cli::guard_config::sha256_of(f[i].sha256@) is Ok by {
                assert(readings[i] is Ok);
            }
        }
        if crate::cli::guard_config::checksums(v, readings) is Ok {
            let all = crate::cli::guard_config::checksums(v, readings)->Ok_0;
            let done = crate::cli::guard_config::checksums(f, r)->Ok_0;
            assert forall|i: int| 0 <= i < v.len() implies readings[i] is Ok && (
            #[trigger] all[i]).0 == readings[i]->Ok_0 && crate::cli::guard_config::sha256_of(
                v[i].sha256@,
            ) == Ok::<Seq<u8>, Seq<char>>(all[i].1) by {
                if i < n {
                    assert(all[i] == done[i]);
                    assert(r[i] == readings[i]);
                }
            }
            assert forall|i: int| 0 <= i < v.len() implies (#[trigger] readings[i]) is Ok
                && crate::cli::guard_config::sha256_of(v[i].sha256@) is Ok by {
                assert(all[i].0 == readings[i]->Ok_0);
            }
        }
    } else {
        assert(crate::cli::guard_config::read_as(v, readings) =~= Seq::empty());
    }
}

proof fn lemma_allows_say(
    v: Seq<RawAllow>,
    readings: Seq<core::result::Result<Seq<u8>, Seq<char>>>,
)
    requires
        v.len() == readings.len(),
    ensures
        crate::cli::guard_config::allows(v, readings) is Ok <==> forall|i: int|
            0 <= i < v.len() ==> (#[trigger] readings[i]) is Ok,
        crate::cli::guard_config::allows(v, readings) matches Ok(list) ==> {
            &&& forall|i: int|
                0 <= i < v.len() ==> (#[trigger] readings[i]) is Ok && list.contains_key(
                    readings[i]->Ok_0,
                )
            &&& forall|i: int|
                0 <= i < v.len() && (forall|j: int|
                    i < j < v.len() ==> (#[trigger] readings[j])->Ok_0 != readings[i]->Ok_0)
                    ==> list[(#[trigger] readings[i])->Ok_0] == crate::protocol::texts(v[i].roles@)
            &&& forall|p: Seq<u8>| #[trigger]
                list.contains_key(p) ==> exists|i: int|
                    0 <= i < v.len() && (#[trigger] readings[i])->Ok_0 == p
        },
    decreases v.len(),
{
    if v.len() > 0 {
        let (f, r) = (v.drop_last(), readings.drop_last());
        lemma_allows_say(f, r);
        let items = crate::cli::guard_config::read_as(v, readings);
        assert(items.drop_last() =~= crate::cli::guard_config::read_as(f, r));
        let n = v.len() - 1;
        assert(items.last() == (v[n], readings[n]));
        assert forall|i: int| 0 <= i < n implies f[i] == v[i] && r[i] == #[trigger] readings[i] by {}
        if forall|i: int| 0 <= i < v.len() ==> (#[trigger] readings[i]) is Ok {
            assert(readings[n] is Ok);
            assert forall|i: int| 0 <= i < n implies (#[trigger] r[i]) is Ok by {
                assert(readings[i] is Ok);
            }
        }
        if crate::cli::guard_config::allows(v, readings) is Ok {
            let list = crate::cli::guard_config::allows(v, readings)->Ok_0;
            let done = crate::cli::guard_config::allows(f, r)->Ok_0;
            assert forall|i: int| 0 <= i < v.len() implies (#[trigger] readings[i]) is Ok
                && list.contains_key(readings[i]->Ok_0) by {
                if i < n {
                    assert(r[i] is Ok);
                }
            }
            assert forall|i: int|
                0 <= i < v.len() && (forall|j: int|
                    i < j < v.len() ==> (#[trigger] readings[j])->Ok_0
                        != readings[i]->Ok_0) implies list[(#[trigger] readings[i])->Ok_0]
                == crate::protocol::texts(v[i].roles@) by {
                if i < n {
                    assert(readings[n]->Ok_0 != readings[i]->Ok_0);
                    assert forall|j: int| i < j < f.len() implies (#[trigger] r[j])->Ok_0
                        != r[i]->Ok_0 by {
                        assert(readings[j]->Ok_0 != readings[i]->Ok_0);
                    }
                    assert(done[r[i]->Ok_0] == crate::protocol::texts(f[i].roles@));
                }
            }
            assert forall|p: Seq<u8>| #[trigger] list.contains_key(p) implies exists|i: int|
                0 <= i < v.len() && (#[trigger] readings[i])->Ok_0 == p by {
                if p == readings[n]->Ok_0 {
                } else {
                    assert(done.contains_key(p));
                    let i = choose|i: int| 0 <= i < f.len() && (#[trigger] r[i])->Ok_0 == p;
                    assert(readings[i]->Ok_0 == p);
                }
            }
        }
    } else {
        assert(crate::cli::guard_config::read_as(v, readings) =~= Seq::empty());
    }
}

/// An accepted configuration says what its file says, entry by entry. It has the address, the
/// rate and the window of the file; as many exempt addresses, exposed services and expected
/// fingerprints as the file has entries, the one at each place being that of the entry at that
/// place, with its name, its port and its required role; and the relay and the namespace of the
/// file.
pub proof fn accepted_configuration_says_what_the_file_says(raw: RawConfig, c: ConfigModel, i: int)
    requires
        crate::cli::guard_config::resolved(raw) == Ok::<ConfigModel, Seq<char>>(c),
    ensures
        crate::addr::multiaddr_of_text(raw.listen@) == Ok::<Seq<u8>, Seq<char>>(c.listen),
        c.rate_limit_max == raw.rate_limit.max,
        c.rate_limit_window == raw.rate_limit.window_secs * 1_000_000_000,
        c.rate_limit_exempt.len() == raw.rate_limit.exempt@.len(),
        0 <= i < raw.rate_limit.exempt@.len() ==> raw.rate_limit.exempt@[i].parsed is Ok
            && raw.rate_limit.exempt@[i].parsed->Ok_0 == c.rate_limit_exempt[i],
        c.expose.len() == raw.expose@.len(),
        0 <= i < raw.expose@.len() ==> c.expose[i].0 == raw.expose@[i].name@ && c.expose[i].1
            == raw.expose@[i].port && (match raw.expose@[i].role {
            Some(role) => c.expose[i].2 == Some(role@),
            None => c.expose[i].2 is None,
        }),
        c.checksum_bin.len() == raw.checksum_bin@.len(),
        0 <= i < raw.checksum_bin@.len() ==> crate::peer::peer_id_of_text(
            raw.checksum_bin@[i].peer@,
        ) == Ok::<Seq<u8>, Seq<char>>(c.checksum_bin[i].0) && crate::cli::guard_config::sha256_of(
            raw.checksum_bin@[i].sha256@,
        ) == Ok::<Seq<u8>, Seq<char>>(c.checksum_bin[i].1),
        match raw.relay {
            Some(text) => c.relay is Some && crate::addr::multiaddr_of_text(text@) == Ok::<
                Seq<u8>,
                Seq<char>,
            >(c.relay->0),
            None => c.relay is None,
        },
        match raw.namespace {
            Some(name) => c.namespace == Some(name@),
            None => c.namespace is None,
        },
{
    let readings = crate::cli::guard_config::readings_of(raw);
    lemma_exempts_say(raw.rate_limit.exempt@);
    lemma_exposes_say(raw.expose@);
    lemma_checksums_say(raw.checksum_bin@, readings.checksum_bin);
    if 0 <= i < raw.expose@.len() {
        assert(c.expose[i].0 == raw.expose@[i].name@);
    }
    if 0 <= i < raw.checksum_bin@.len() {
        assert(c.checksum_bin[i].0 == readings.checksum_bin[i]->Ok_0);
    }
}

/// The whitelist of an accepted configuration holds the peers of the file and no other. A peer
/// has exactly the roles of its last entry.
pub proof fn accepted_whitelist_is_that_of_the_file(
    raw: RawConfig,
    c: ConfigModel,
    i: int,
    peer: Seq<u8>,
)
    requires
        crate::cli::guard_config::resolved(raw) == Ok::<ConfigModel, Seq<char>>(c),
    ensures
        c.whitelist.contains_key(peer) <==> exists|j: int|
            0 <= j < raw.allow@.len() && crate::peer::peer_id_of_text(
                (#[trigger] raw.allow@[j]).peer@,
            ) == Ok::<Seq<u8>, Seq<char>>(peer),
        0 <= i < raw.allow@.len() && crate::peer::peer_id_of_text(raw.allow@[i].peer@) == Ok::<
            Seq<u8>,
            Seq<char>,
        >(peer) && (forall|j: int|
            i < j < raw.allow@.len() ==> crate::peer::peer_id_of_text(
                (#[trigger] raw.allow@[j]).peer@,
            ) != Ok::<Seq<u8>, Seq<char>>(peer)) ==> c.whitelist[peer] == crate::protocol::texts(
            raw.allow@[i].roles@,
        ),
{
    let readings = crate::cli::guard_config::readings_of(raw).allow;
    lemma_allows_say(raw.allow@, readings);
    if c.whitelist.contains_key(peer) {
        let j = choose|j: int| 0 <= j < raw.allow@.len() && (#[trigger] readings[j])->Ok_0 == peer;
        assert(readings[j] is Ok);
        assert(crate::peer::peer_id_of_text(raw.allow@[j].peer@) == readings[j]);
    }
    if exists|j: int|
        0 <= j < raw.allow@.len() && crate::peer::peer_id_of_text((#[trigger] raw.allow@[j]).peer@)
            == Ok::<Seq<u8>, Seq<char>>(peer) {
        let j = choose|j: int|
            0 <= j < raw.allow@.len() && crate::peer::peer_id_of_text(
                (#[trigger] raw.allow@[j]).peer@,
            ) == Ok::<Seq<u8>, Seq<char>>(peer);
        assert(readings[j] == Ok::<Seq<u8>, Seq<char>>(peer));
    }
    if 0 <= i < raw.allow@.len() && readings[i] == Ok::<Seq<u8>, Seq<char>>(peer) && (forall|j: int|
        i < j < raw.allow@.len() ==> crate::peer::peer_id_of_text(
            (#[trigger] raw.allow@[j]).peer@,
        ) != Ok::<Seq<u8>, Seq<char>>(peer)) {
        assert forall|j: int| i < j < raw.allow@.len() implies (#[trigger] readings[j])->Ok_0
            != readings[i]->Ok_0 by {
            assert(crate::peer::peer_id_of_text(raw.allow@[j].peer@) == readings[j]);
            assert(readings[j] is Ok);
        }
        assert(c.whitelist[readings[i]->Ok_0] == crate::protocol::texts(raw.allow@[i].roles@));
    }
}

/// A file is accepted if and only if its addresses, peers and fingerprints can be read, its
/// window is not zero, no service is named twice, its namespace takes at most 255 bytes, and it
/// has a relay if it has a namespace.
pub proof fn file_is_accepted_exactly_if_it_is_valid(raw: RawConfig)
    ensures
        crate::cli::guard_config::resolved(raw) is Ok <==> {
            &&& crate::addr::multiaddr_of_text(raw.listen@) is Ok
            &&& raw.rate_limit.window_secs > 0
            &&& forall|i: int|
                0 <= i < raw.rate_limit.exempt@.len() ==> (
                #[trigger] raw.rate_limit.exempt@[i]).parsed is Ok
            &&& forall|i: int|
                0 <= i < raw.allow@.len() ==> crate::peer::peer_id_of_text(
                    (#[trigger] raw.allow@[i]).peer@,
                ) is Ok
            &&& forall|i: int, j: int|
                0 <= i < j < raw.expose@.len() ==> (#[trigger] raw.expose@[i]).name@ != (
                #[trigger] raw.expose@[j]).name@
            &&& forall|i: int|
                0 <= i < raw.checksum_bin@.len() ==> crate::peer::peer_id_of_text(
                    (#[trigger] raw.checksum_bin@[i]).peer@,
                ) is Ok && crate::cli::guard_config::sha256_of(raw.checksum_bin@[i].sha256@) is Ok
            &&& raw.relay matches Some(text) ==> crate::addr::multiaddr_of_text(text@) is Ok
            &&& raw.namespace matches Some(name) ==> vstd::utf8::encode_utf8(name@).len() <= 255
                && raw.relay is Some
        },
{
    let readings = crate::cli::guard_config::readings_of(raw);
    lemma_exempts_say(raw.rate_limit.exempt@);
    lemma_exposes_say(raw.expose@);
    lemma_checksums_say(raw.checksum_bin@, readings.checksum_bin);
    lemma_allows_say(raw.allow@, readings.allow);
    assert forall|i: int| 0 <= i < raw.allow@.len() implies readings.allow[i]
        == crate::peer::peer_id_of_text((#[trigger] raw.allow@[i]).peer@) by {}
    assert forall|i: int| 0 <= i < raw.checksum_bin@.len() implies readings.checksum_bin[i]
        == crate::peer::peer_id_of_text((#[trigger] raw.checksum_bin@[i]).peer@) by {}
    if crate::cli::guard_config::allows(raw.allow@, readings.allow) is Ok {
        assert forall|i: int| 0 <= i < raw.allow@.len() implies crate::peer::peer_id_of_text(
            (#[trigger] raw.allow@[i]).peer@,
        ) is Ok by {
            assert(readings.allow[i] is Ok);
        }
    } else {
        let i = choose|i: int| 0 <= i < raw.allow@.len() && !((#[trigger] readings.allow[i]) is Ok);
        assert(crate::peer::peer_id_of_text(raw.allow@[i].peer@) is Err);
    }
    if crate::cli::guard_config::checksums(raw.checksum_bin@, readings.checksum_bin) is Ok {
        assert forall|i: int|
            0 <= i < raw.checksum_bin@.len() implies crate::peer::peer_id_of_text(
            (#[trigger] raw.checksum_bin@[i]).peer@,
        ) is Ok && crate::cli::guard_config::sha256_of(raw.checksum_bin@[i].sha256@) is Ok by {
            assert(readings.checksum_bin[i] is Ok);
        }
    } else {
        let i = choose|i: int|
            0 <= i < raw.checksum_bin@.len() && !((#[trigger] readings.checksum_bin[i]) is Ok
                && crate::cli::guard_config::sha256_of(raw.checksum_bin@[i].sha256@) is Ok);
        assert(!(crate::peer::peer_id_of_text(raw.checksum_bin@[i].peer@) is Ok
            && crate::cli::guard_config::sha256_of(raw.checksum_bin@[i].sha256@) is Ok));
    }
}

/// Contents of services and fingerprints are those of all their items, in order, and the content
/// of a configuration is its fields.
pub proof fn configuration_is_taken_as_it_is(
    config: crate::cli::guard_config::GuardConfig,
    services: Seq<(String, u16, Option<String>)>,
    sums: Seq<(crate::peer::PeerId, [u8; 32])>,
    i: int,
)
    ensures
        crate::cli::guard_config::expose_models(services).len() == services.len(),
        0 <= i < services.len() ==> crate::cli::guard_config::expose_models(services)[i].0
            == services[i].0@ && crate::cli::guard_config::expose_models(services)[i].1
            == services[i].1 && crate::cli::guard_config::expose_models(services)[i].2 == (
        match services[i].2 {
            Some(role) => Some(role@),
            None => None,
        }),
        crate::cli::guard_config::checksum_models(sums).len() == sums.len(),
        0 <= i < sums.len() ==> crate::cli::guard_config::checksum_models(sums)[i] == (
            sums[i].0@,
            sums[i].1@,
        ),
        config@.listen == config.listen@,
        config@.rate_limit_max == config.rate_limit_max,
        config@.rate_limit_window == config.rate_limit_window,
        config@.rate_limit_exempt == config.rate_limit_exempt@,
        config@.whitelist == config.whitelist@,
        config@.expose == crate::cli::guard_config::expose_models(config.expose@),
        config@.checksum_bin == crate::cli::guard_config::checksum_models(config.checksum_bin@),
        match config.relay {
            Some(a) => config@.relay == Some(a@),
            None => config@.relay is None,
        },
        match config.namespace {
            Some(n) => config@.namespace == Some(n@),
            None => config@.namespace is None,
        },
{
}

/// A fingerprint is read from 64 hexadecimal digits, blanks around them aside, and from nothing
/// else.
pub proof fn fingerprint_is_64_digits(text: Seq<char>)
    ensures
        crate::cli::guard_config::sha256_of(text) is Ok <==> crate::identity::is_hex(
            crate::text::trimmed(text),
        ) && crate::text::trimmed(text).len() == 64,
        crate::cli::guard_config::sha256_of(text) is Ok ==> crate::cli::guard_config::sha256_of(
            text,
        )->Ok_0 == crate::identity::hex_bytes(crate::text::trimmed(text)),
{
    crate::identity::hex_is_read_by_pairs(crate::text::trimmed(text));
}

/// A remote window is written as it is, unless it is larger than what a document can hold.
pub proof fn window_is_written_as_it_is(secs: u64)
    ensures
        secs <= 0x7fff_ffff_ffff_ffff ==> crate::cli::guard_config::window_integer(secs) == secs,
        secs > 0x7fff_ffff_ffff_ffff ==> crate::cli::guard_config::window_integer(secs)
            == 0x7fff_ffff_ffff_ffff,
{
}

/// A Guard serves, to whoever has the required role, exactly what its file exposes: in the
/// registry of an accepted configuration, the service of entry `i` of the file is at its port on
/// the local machine, under its required role.
pub proof fn guard_serves_what_its_file_exposes(raw: RawConfig, c: ConfigModel, i: int)
    requires
        crate::cli::guard_config::resolved(raw) == Ok::<ConfigModel, Seq<char>>(c),
        0 <= i < raw.expose@.len(),
    ensures
        ({
            let services = crate::cli::startup::exposed(c.expose);
            let entry = raw.expose@[i];
            &&& services.contains_key(entry.name@)
            &&& services[entry.name@].0 == crate::addr::SocketAddr::V4(0x7f00_0001, entry.port)
            &&& match entry.role {
                Some(role) => services[entry.name@].1 == Some(role@),
                None => services[entry.name@].1 is None,
            }
        }),
{
    accepted_configuration_says_what_the_file_says(raw, c, i);
    lemma_exposes_say(raw.expose@);
    assert forall|j: int| i < j < c.expose.len() implies (#[trigger] c.expose[j]).0
        != c.expose[i].0 by {
        accepted_configuration_says_what_the_file_says(raw, c, j);
        assert(raw.expose@[i].name@ != raw.expose@[j].name@);
    }
    crate::cli::startup::exposed_service_is_that_of_its_entry(c.expose, i);
}

/// A file that is refused is refused for its first fault, in the order of its fields, and the
/// refusal names the entry: here for the listening address, the window, the exempt addresses,
/// the peers and the services.
pub proof fn refusal_of_a_file_names_its_fault(raw: RawConfig, i: int)
    ensures
        crate::addr::multiaddr_of_text(raw.listen@) matches Err(why)
            ==> crate::cli::guard_config::resolved(raw) == Err::<ConfigModel, Seq<char>>(
            "listen"@ + " `"@ + raw.listen@ + "` invalide: "@ + why,
        ),
        crate::addr::multiaddr_of_text(raw.listen@) is Ok && raw.rate_limit.window_secs == 0
            ==> crate::cli::guard_config::resolved(raw) == Err::<ConfigModel, Seq<char>>(
            "rate_limit.window_secs doit être d'au moins 1"@,
        ),
        crate::addr::multiaddr_of_text(raw.listen@) is Ok && raw.rate_limit.window_secs > 0 && 0 <= i
            < raw.rate_limit.exempt@.len() && raw.rate_limit.exempt@[i].parsed is Err && (forall|
            j: int,
        |
            0 <= j < i ==> (#[trigger] raw.rate_limit.exempt@[j]).parsed is Ok)
            ==> crate::cli::guard_config::resolved(raw) == Err::<ConfigModel, Seq<char>>(
            "rate_limit.exempt"@ + " `"@ + raw.rate_limit.exempt@[i].text@ + "` invalide: "@
                + raw.rate_limit.exempt@[i].parsed->Err_0@,
        ),
        crate::addr::multiaddr_of_text(raw.listen@) is Ok && raw.rate_limit.window_secs > 0 && (
        forall|j: int|
            0 <= j < raw.rate_limit.exempt@.len() ==> (
            #[trigger] raw.rate_limit.exempt@[j]).parsed is Ok) && 0 <= i < raw.allow@.len()
            && crate::peer::peer_id_of_text(raw.allow@[i].peer@) is Err && (forall|j: int|
            0 <= j < i ==> crate::peer::peer_id_of_text((#[trigger] raw.allow@[j]).peer@) is Ok)
            ==> crate::cli::guard_config::resolved(raw) == Err::<ConfigModel, Seq<char>>(
            "allow.peer"@ + " `"@ + raw.allow@[i].peer@ + "` invalide: "@
                + crate::peer::peer_id_of_text(raw.allow@[i].peer@)->Err_0,
        ),
{
    let v = raw.rate_limit.exempt@;
    lemma_exempts_say(v);
    if 0 <= i < v.len() && v[i].parsed is Err && (forall|j: int|
        0 <= j < i ==> (#[trigger] v[j]).parsed is Ok) {
        let step = crate::cli::guard_config::exempt_step();
        let head = v.take(i);
        assert forall|j: int| 0 <= j < head.len() implies (#[trigger] head[j]).parsed is Ok by {
            assert(v[j].parsed is Ok);
        }
        lemma_exempts_say(head);
        crate::fold::lemma_try_fold_next(v, Seq::empty(), step, i);
        crate::fold::lemma_try_fold_error(v, Seq::empty(), step, i + 1);
    }
    let readings = crate::cli::guard_config::readings_of(raw).allow;
    if 0 <= i < raw.allow@.len() && crate::peer::peer_id_of_text(raw.allow@[i].peer@) is Err && (
    forall|j: int|
        0 <= j < i ==> crate::peer::peer_id_of_text((#[trigger] raw.allow@[j]).peer@) is Ok) {
        let step = crate::cli::guard_config::allow_step();
        let items = crate::cli::guard_config::read_as(raw.allow@, readings);
        let (h, r) = (raw.allow@.take(i), readings.take(i));
        assert forall|j: int| 0 <= j < h.len() implies (#[trigger] r[j]) is Ok by {
            assert(crate::peer::peer_id_of_text(raw.allow@[j].peer@) is Ok);
        }
        lemma_allows_say(h, r);
        assert(items.take(i) =~= crate::cli::guard_config::read_as(h, r));
        crate::fold::lemma_try_fold_next(items, Map::empty(), step, i);
        crate::fold::lemma_try_fold_error(items, Map::empty(), step, i + 1);
    }
}

/// The addresses and peers of a configuration are taken as they were read, each at its place.
pub proof fn readings_are_taken_as_they_are(
    readings: crate::cli::guard_config::Readings,
    raw: RawConfig,
    i: int,
)
    ensures
        readings@.allow.len() == readings.allow@.len(),
        readings@.checksum_bin.len() == readings.checksum_bin@.len(),
        match readings.listen {
            Ok(a) => readings@.listen == Ok::<Seq<u8>, Seq<char>>(a@),
            Err(e) => readings@.listen == Err::<Seq<u8>, Seq<char>>(e@),
        },
        0 <= i < readings.allow@.len() ==> (match readings.allow@[i] {
            Ok(p) => readings@.allow[i] == Ok::<Seq<u8>, Seq<char>>(p@),
            Err(e) => readings@.allow[i] == Err::<Seq<u8>, Seq<char>>(e@),
        }),
        0 <= i < readings.checksum_bin@.len() ==> (match readings.checksum_bin@[i] {
            Ok(p) => readings@.checksum_bin[i] == Ok::<Seq<u8>, Seq<char>>(p@),
            Err(e) => readings@.checksum_bin[i] == Err::<Seq<u8>, Seq<char>>(e@),
        }),
        match readings.relay {
            Some(Ok(a)) => readings@.relay == Some(Ok::<Seq<u8>, Seq<char>>(a@)),
            Some(Err(e)) => readings@.relay == Some(Err::<Seq<u8>, Seq<char>>(e@)),
            None => readings@.relay is None,
        },
        0 <= i < raw.allow@.len() ==> crate::cli::guard_config::readings_of(raw).allow[i]
            == crate::peer::peer_id_of_text(raw.allow@[i].peer@),
        0 <= i < raw.checksum_bin@.len() ==> crate::cli::guard_config::readings_of(
            raw,
        ).checksum_bin[i] == crate::peer::peer_id_of_text(raw.checksum_bin@[i].peer@),
{
}

/// What is read of a configuration decides: two readings of the same file that agree give the
/// same outcome, and an accepted file has, entry by entry, the peers of the readings.
pub proof fn accepted_configuration_has_what_was_read(
    raw: RawConfig,
    readings: crate::cli::guard_config::ReadingsModel,
    c: ConfigModel,
    i: int,
)
    requires
        readings.allow.len() == raw.allow@.len(),
        readings.checksum_bin.len() == raw.checksum_bin@.len(),
        crate::cli::guard_config::resolved_with(raw, readings) == Ok::<ConfigModel, Seq<char>>(c),
    ensures
        readings.listen == Ok::<Seq<u8>, Seq<char>>(c.listen),
        c.expose.len() == raw.expose@.len(),
        0 <= i < raw.expose@.len() ==> c.expose[i].0 == raw.expose@[i].name@ && c.expose[i].1
            == raw.expose@[i].port && (match raw.expose@[i].role {
            Some(role) => c.expose[i].2 == Some(role@),
            None => c.expose[i].2 is None,
        }),
        c.checksum_bin.len() == raw.checksum_bin@.len(),
        0 <= i < raw.checksum_bin@.len() ==> readings.checksum_bin[i] == Ok::<Seq<u8>, Seq<char>>(
            c.checksum_bin[i].0,
        ),
        0 <= i < raw.allow@.len() ==> readings.allow[i] is Ok && c.whitelist.contains_key(
            readings.allow[i]->Ok_0,
        ),
        raw.relay is Some && readings.relay is Some ==> c.relay is Some && readings.relay == Some(
            Ok::<Seq<u8>, Seq<char>>(c.relay->0),
        ),
{
    lemma_exempts_say(raw.rate_limit.exempt@);
    lemma_exposes_say(raw.expose@);
    lemma_checksums_say(raw.checksum_bin@, readings.checksum_bin);
    lemma_allows_say(raw.allow@, readings.allow);
    if 0 <= i < raw.expose@.len() {
        assert(c.expose[i].0 == raw.expose@[i].name@);
    }
    if 0 <= i < raw.checksum_bin@.len() {
        assert(c.checksum_bin[i].0 == readings.checksum_bin[i]->Ok_0);
    }
}

/// The later faults of a file: a service that is named twice, an expected fingerprint that cannot
/// be read, a relay or a namespace that cannot be, or a namespace without a relay. Each is told
/// where nothing before it is at fault.
pub proof fn refusal_of_a_file_names_its_later_fault(raw: RawConfig, i: int, k: int)
    requires
        crate::addr::multiaddr_of_text(raw.listen@) is Ok,
        raw.rate_limit.window_secs > 0,
        forall|j: int|
            0 <= j < raw.rate_limit.exempt@.len() ==> (
            #[trigger] raw.rate_limit.exempt@[j]).parsed is Ok,
        forall|j: int|
            0 <= j < raw.allow@.len() ==> crate::peer::peer_id_of_text(
                (#[trigger] raw.allow@[j]).peer@,
            ) is Ok,
    ensures
        0 <= k < i < raw.expose@.len() && raw.expose@[k].name@ == raw.expose@[i].name@ && (forall|
            a: int,
            b: int,
        |
            0 <= a < b < i ==> (#[trigger] raw.expose@[a]).name@ != (#[trigger] raw.expose@[b]).name@)
            ==> crate::cli::guard_config::resolved(raw) == Err::<ConfigModel, Seq<char>>(
            "expose: service `"@ + raw.expose@[i].name@ + "` défini plusieurs fois"@,
        ),
        crate::cli::guard_config::exposes(raw.expose@) is Ok && 0 <= i < raw.checksum_bin@.len()
            && crate::peer::peer_id_of_text(raw.checksum_bin@[i].peer@) is Err && (forall|j: int|
            0 <= j < i ==> crate::peer::peer_id_of_text((#[trigger] raw.checksum_bin@[j]).peer@) is Ok
                && crate::cli::guard_config::sha256_of(raw.checksum_bin@[j].sha256@) is Ok)
            ==> crate::cli::guard_config::resolved(raw) == Err::<ConfigModel, Seq<char>>(
            "checksum_bin.peer"@ + " `"@ + raw.checksum_bin@[i].peer@ + "` invalide: "@
                + crate::peer::peer_id_of_text(raw.checksum_bin@[i].peer@)->Err_0,
        ),
        crate::cli::guard_config::exposes(raw.expose@) is Ok && 0 <= i < raw.checksum_bin@.len()
            && crate::peer::peer_id_of_text(raw.checksum_bin@[i].peer@) is Ok
            && crate::cli::guard_config::sha256_of(raw.checksum_bin@[i].sha256@) is Err && (forall|
            j: int,
        |
            0 <= j < i ==> crate::peer::peer_id_of_text((#[trigger] raw.checksum_bin@[j]).peer@) is Ok
                && crate::cli::guard_config::sha256_of(raw.checksum_bin@[j].sha256@) is Ok)
            ==> crate::cli::guard_config::resolved(raw) == Err::<ConfigModel, Seq<char>>(
            "checksum_bin.sha256"@ + " `"@ + raw.checksum_bin@[i].sha256@ + "` invalide: "@
                + crate::cli::guard_config::sha256_of(raw.checksum_bin@[i].sha256@)->Err_0,
        ),
{
    let readings = crate::cli::guard_config::readings_of(raw);
    lemma_exempts_say(raw.rate_limit.exempt@);
    assert forall|j: int| 0 <= j < raw.allow@.len() implies (#[trigger] readings.allow[j]) is Ok by {
        assert(crate::peer::peer_id_of_text(raw.allow@[j].peer@) is Ok);
    }
    lemma_allows_say(raw.allow@, readings.allow);
    let v = raw.expose@;
    if 0 <= k < i < v.len() && v[k].name@ == v[i].name@ && (forall|a: int, b: int|
        0 <= a < b < i ==> (#[trigger] v[a]).name@ != (#[trigger] v[b]).name@) {
        let step = crate::cli::guard_config::expose_step();
        let head = v.take(i);
        assert forall|a: int, b: int| 0 <= a < b < head.len() implies (#[trigger] head[a]).name@ != (
        #[trigger] head[b]).name@ by {
            assert(v[a].name@ != v[b].name@);
        }
        lemma_exposes_say(head);
        let done = crate::cli::guard_config::exposes(head)->Ok_0;
        assert(done[k].0 == head[k].name@);
        crate::fold::lemma_try_fold_next(v, Seq::empty(), step, i);
        crate::fold::lemma_try_fold_error(v, Seq::empty(), step, i + 1);
    }
    let sums = raw.checksum_bin@;
    if 0 <= i < sums.len() && (forall|j: int|
        0 <= j < i ==> crate::peer::peer_id_of_text((#[trigger] sums[j]).peer@) is Ok
            && crate::cli::guard_config::sha256_of(sums[j].sha256@) is Ok) {
        let step = crate::cli::guard_config::checksum_step();
        let items = crate::cli::guard_config::read_as(sums, readings.checksum_bin);
        let (h, r) = (sums.take(i), readings.checksum_bin.take(i));
        assert forall|j: int| 0 <= j < h.len() implies (#[trigger] r[j]) is Ok
            && crate::cli::guard_config::sha256_of(h[j].sha256@) is Ok by {
            assert(crate::peer::peer_id_of_text(sums[j].peer@) is Ok);
        }
        lemma_checksums_say(h, r);
        assert(items.take(i) =~= crate::cli::guard_config::read_as(h, r));
        crate::fold::lemma_try_fold_next(items, Seq::empty(), step, i);
        if !(crate::peer::peer_id_of_text(sums[i].peer@) is Ok
            && crate::cli::guard_config::sha256_of(sums[i].sha256@) is Ok) {
            crate::fold::lemma_try_fold_error(items, Seq::empty(), step, i + 1);
        }
    }
}

/// The last faults of a file: a relay that cannot be read, a namespace that is too long, and a
/// namespace without a relay.
pub proof fn relay_and_namespace_are_refused_by_name(raw: RawConfig)
    requires
        crate::addr::multiaddr_of_text(raw.listen@) is Ok,
        raw.rate_limit.window_secs > 0,
        crate::cli::guard_config::exempts(raw.rate_limit.exempt@) is Ok,
        crate::cli::guard_config::allows(
            raw.allow@,
            crate::cli::guard_config::readings_of(raw).allow,
        ) is Ok,
        crate::cli::guard_config::exposes(raw.expose@) is Ok,
        crate::cli::guard_config::checksums(
            raw.checksum_bin@,
            crate::cli::guard_config::readings_of(raw).checksum_bin,
        ) is Ok,
    ensures
        ({
            let r = crate::cli::guard_config::resolved(raw);
            let bad_relay = raw.relay is Some && crate::addr::multiaddr_of_text(
                raw.relay->0@,
            ) is Err;
            let long = raw.namespace is Some && vstd::utf8::encode_utf8(raw.namespace->0@).len()
                > 255;
            &&& bad_relay ==> r == Err::<ConfigModel, Seq<char>>(
                "relay"@ + " `"@ + raw.relay->0@ + "` invalide: "@ + crate::addr::multiaddr_of_text(
                    raw.relay->0@,
                )->Err_0,
            )
            &&& !bad_relay && long ==> r == Err::<ConfigModel, Seq<char>>(
                "namespace"@ + " `"@ + raw.namespace->0@ + "` invalide: "@ + "trop long"@,
            )
            &&& !bad_relay && !long && raw.namespace is Some && raw.relay is None ==> r == Err::<
                ConfigModel,
                Seq<char>,
            >("namespace exige `relay` : l'enregistrement transite par cette connexion"@)
            &&& !bad_relay && !long && (raw.namespace is Some ==> raw.relay is Some) ==> r is Ok
        }),
{
}

} // verus!
