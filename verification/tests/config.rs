use git_read_only_proxy::config::bind_address;
use git_read_only_proxy::config::parse_upstream;
use git_read_only_proxy::config::ConfigError;
use git_read_only_proxy::config::Listen;
use git_read_only_proxy::Config;

fn config(cert: Option<&'static str>, key: Option<&'static str>) -> Config<u16, &'static str> {
    Config {
        upstream: parse_upstream("https://github.com").unwrap(),
        addr: 443,
        cert,
        key,
    }
}

#[test]
fn both_files_enable_https() {
    match config(Some("c.pem"), Some("k.pem")).listen() {
        Ok(Listen::Https { cert, key }) => {
            assert_eq!(*cert, "c.pem");
            assert_eq!(*key, "k.pem");
        }
        _ => panic!("https expected"),
    }
}

#[test]
fn a_configuration_can_be_cloned() {
    let clone = config(Some("c.pem"), None).clone();
    assert_eq!(clone.upstream.as_str(), "https://github.com/");
    assert_eq!((clone.addr, clone.cert, clone.key), (443, Some("c.pem"), None));
}

#[test]
fn no_files_mean_http() {
    assert!(matches!(config(None, None).listen(), Ok(Listen::Http)));
}

#[test]
fn one_file_alone_is_refused() {
    for c in [config(Some("c.pem"), None), config(None, Some("k.pem"))] {
        match c.listen() {
            Err(e) => {
                assert!(matches!(e, ConfigError::IncompleteTls));
                assert_eq!(
                    e.message(),
                    "Both --cert and --key must be provided together to enable HTTPS, \
                     or omit both to use plain HTTP"
                );
            }
            Ok(_) => panic!("refusal expected"),
        }
    }
}

#[test]
fn upstreams_are_urls() {
    assert_eq!(parse_upstream("https://github.com").unwrap().as_str(), "https://github.com/");
    match parse_upstream("github.com") {
        Err(e) => {
            assert_eq!(e.message(), "Invalid upstream URL");
            match e {
                ConfigError::InvalidUpstream(why) => {
                    assert_eq!(why, "relative URL without a base")
                }
                ConfigError::IncompleteTls => panic!("{:?}", e),
            }
        }
        Ok(url) => panic!("{}", url),
    }
}

#[test]
fn addresses_join_host_and_port() {
    assert_eq!(bind_address("127.0.0.1", 443), "127.0.0.1:443");
    assert_eq!(bind_address("[::]", 0), "[::]:0");
    assert_eq!(bind_address("", 65535), ":65535");
    assert_eq!(bind_address("h", 10), "h:10");
    for port in 0..=u16::MAX {
        assert_eq!(bind_address("h", port), format!("h:{}", port));
    }
}
