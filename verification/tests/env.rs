use watchtower::server::env::{
    exclude_node, get_auth_info, get_cluster_nodes, get_hostname, AuthInfo, DEFAULT_HOSTNAME,
    DEFAULT_PASSWORD, DEFAULT_USERNAME,
};
use watchtower::text::{bytes_eq, split, str_eq, to_decimal};

fn strings(values: &[&str]) -> Vec<String> {
    values.iter().map(|v| v.to_string()).collect()
}

#[test]
fn defaults() {
    assert_eq!(DEFAULT_USERNAME, "admin");
    assert_eq!(DEFAULT_PASSWORD, "password");
    assert_eq!(DEFAULT_HOSTNAME, "127.0.0.1:8088");
    assert_eq!(get_hostname(None), "127.0.0.1:8088");
    assert_eq!(get_hostname(Some("10.0.0.1:9000".to_string())), "10.0.0.1:9000");
    assert_eq!(
        get_auth_info(None, None),
        AuthInfo { username: "admin".to_string(), password: "password".to_string() }
    );
    assert_eq!(
        get_auth_info(Some("root".to_string()), None),
        AuthInfo { username: "root".to_string(), password: "password".to_string() }
    );
    assert_eq!(
        get_auth_info(None, Some("secret".to_string())),
        AuthInfo { username: "admin".to_string(), password: "secret".to_string() }
    );
}

#[test]
fn cluster_nodes_exclude_the_local_node() {
    assert_eq!(
        get_cluster_nodes(Some("10.0.0.1:8088,10.0.0.2:8088,10.0.0.3:8088"), "10.0.0.2:8088"),
        strings(&["10.0.0.1:8088", "10.0.0.3:8088"])
    );
    assert_eq!(
        get_cluster_nodes(Some("10.0.0.1:8088,10.0.0.2:8088"), "10.0.0.9:8088"),
        strings(&["10.0.0.1:8088", "10.0.0.2:8088"])
    );
    assert_eq!(
        get_cluster_nodes(Some("10.0.0.1:8088,10.0.0.1:8088"), "10.0.0.1:8088"),
        Vec::<String>::new()
    );
    assert_eq!(get_cluster_nodes(Some("10.0.0.1:8088"), "10.0.0.1:8088"), Vec::<String>::new());
    assert_eq!(get_cluster_nodes(None, "10.0.0.1:8088"), Vec::<String>::new());
    assert_eq!(get_cluster_nodes(Some(""), "10.0.0.1:8088"), strings(&[""]));
}

#[test]
fn exclude_node_keeps_the_order_of_the_others() {
    assert_eq!(
        exclude_node(strings(&["c", "a", "b", "a", "d"]), "a"),
        strings(&["c", "b", "d"])
    );
    assert_eq!(exclude_node(vec![], "a"), Vec::<String>::new());
}

#[test]
fn split_parts_a_string_at_each_separator() {
    assert_eq!(split("a,b,c", ','), strings(&["a", "b", "c"]));
    assert_eq!(split("abc", ','), strings(&["abc"]));
    assert_eq!(split("", ','), strings(&[""]));
    assert_eq!(split(",", ','), strings(&["", ""]));
    assert_eq!(split("a,", ','), strings(&["a", ""]));
    assert_eq!(split(",a", ','), strings(&["", "a"]));
    assert_eq!(split("a,,b", ','), strings(&["a", "", "b"]));
    assert_eq!(split("é,ü", ','), strings(&["é", "ü"]));
    let parts: Vec<String> = "x,,y,".split(',').map(|p| p.to_string()).collect();
    assert_eq!(split("x,,y,", ','), parts);
}

#[test]
fn strings_compare_by_their_characters() {
    assert!(str_eq("", ""));
    assert!(str_eq("foo", "foo"));
    assert!(!str_eq("foo", "fo"));
    assert!(!str_eq("foo", "fop"));
    assert!(!str_eq("é", "e"));
    assert!(bytes_eq(b"abc", b"abc"));
    assert!(!bytes_eq(b"abc", b"abd"));
    assert!(!bytes_eq(b"abc", b"ab"));
    assert!(bytes_eq(b"", b""));
}

#[test]
fn decimal_numerals() {
    assert_eq!(to_decimal(0), "0");
    assert_eq!(to_decimal(7), "7");
    assert_eq!(to_decimal(10), "10");
    assert_eq!(to_decimal(1234), "1234");
    assert_eq!(to_decimal(8088), "8088");
    assert_eq!(to_decimal(65535), "65535");
    for n in [9u16, 99, 100, 101, 999, 1000, 40000, 65534] {
        assert_eq!(to_decimal(n), n.to_string());
    }
}
