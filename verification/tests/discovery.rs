use concord::ids::Id;
use concord::rest::discovery::{to_guilds, urlencoding, DiscoverableGuild, GuildBody};

fn guild(members: Option<u64>, online: Option<u64>) -> DiscoverableGuild {
    DiscoverableGuild {
        id: Id::new(1),
        name: "Rustaceans".to_owned(),
        description: Some("We talk about Rust".to_owned()),
        approximate_member_count: members,
        approximate_presence_count: online,
        vanity_url_code: Some("rustaceans".to_owned()),
    }
}

#[test]
fn counts_are_described_as_approximate() {
    assert!(guild(Some(1200), Some(80)).summary().contains("about 1200"));
    assert!(guild(Some(1200), Some(80)).summary().contains("80 online"));
}

#[test]
fn a_server_with_no_counts_says_so_rather_than_showing_nothing() {
    assert!(guild(None, None).summary().contains("unknown"));
}

#[test]
fn a_query_cannot_break_out_of_the_url() {
    let encoded = urlencoding("rust & friends=1");
    assert!(!encoded.contains('&'));
    assert!(!encoded.contains('='));
    assert!(encoded.contains("%26"));
}

#[test]
fn an_ordinary_query_is_left_readable() {
    assert_eq!(urlencoding("rust"), "rust");
}

#[test]
fn a_server_without_a_vanity_code_says_why_it_cannot_be_joined() {
    let mut without = guild(Some(10), Some(2));
    without.vanity_url_code = None;

    assert!(!without.is_joinable());
    assert!(without.summary().contains("no invite link"));
    assert!(!guild(Some(10), Some(2)).summary().contains("no invite link"));
}

#[test]
fn a_guild_with_no_id_is_dropped_rather_than_shown_unjoinable() {
    let guilds = to_guilds(vec![
        GuildBody {
            id: None,
            name: Some("Nameless".to_owned()),
            description: None,
            approximate_member_count: None,
            approximate_presence_count: None,
            vanity_url_code: None,
        },
        GuildBody {
            id: Some("7".to_owned()),
            name: Some("Real".to_owned()),
            description: None,
            approximate_member_count: None,
            approximate_presence_count: None,
            vanity_url_code: None,
        },
    ]);

    assert_eq!(guilds.len(), 1);
    assert_eq!(guilds[0].name, "Real");
}
