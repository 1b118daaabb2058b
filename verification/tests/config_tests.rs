use actor_system::config::{
    is_shallow, load_config, BasicTimerConfig, Config, MailboxConfig, ThreadPoolConfig,
};

fn pool() -> ThreadPoolConfig {
    ThreadPoolConfig::new(4, 0)
}

#[test]
fn defaults() {
    let cfg = Config::new(pool());
    assert!(cfg.debug);
    assert_eq!(cfg.mailbox.msg_process_limit, 1000);
    assert_eq!(cfg.dispatcher.pool_size, 4);
    assert_eq!(cfg.dispatcher.stack_size, 0);
    assert_eq!(cfg.scheduler.frequency_millis, 50);
    assert_eq!(MailboxConfig::default().msg_process_limit, 1000);
    assert_eq!(BasicTimerConfig::default().frequency_millis, 50);
}

#[test]
fn load_without_a_file_gives_the_defaults() {
    assert_eq!(load_config(pool(), None), Config::new(pool()));
}

#[test]
fn a_full_document_amends_everything() {
    let text = "debug = false\n\
                [mailbox]\nmsg_process_limit = 7\n\
                [dispatcher]\npool_size = 8\nstack_size = 4096\n\
                [scheduler]\nfrequency_ms = 20\n";
    let cfg = load_config(pool(), Some(text));
    assert_eq!(
        cfg,
        Config {
            debug: false,
            mailbox: MailboxConfig { msg_process_limit: 7 },
            dispatcher: ThreadPoolConfig { pool_size: 8, stack_size: 4096 },
            scheduler: BasicTimerConfig { frequency_millis: 20 },
        }
    );
}

#[test]
fn text_that_is_no_document_changes_nothing() {
    let mut cfg = Config::new(pool());
    cfg.amend("debug = = false");
    assert_eq!(cfg, Config::new(pool()));
}

#[test]
fn a_file_with_one_section_is_laid_over_the_defaults() {
    let cfg = load_config(pool(), Some("[mailbox]\nmsg_process_limit = 500"));
    let defaults = Config::new(pool());
    assert_eq!(cfg.mailbox.msg_process_limit, 500);
    assert_eq!(cfg.debug, defaults.debug);
    assert_eq!(cfg.dispatcher, defaults.dispatcher);
    assert_eq!(cfg.scheduler, defaults.scheduler);
}

#[test]
fn a_missing_debug_keeps_debug_and_the_rest_is_read() {
    let mut cfg = Config::new(pool());
    cfg.amend("[mailbox]\nmsg_process_limit = 7\n");
    assert!(cfg.debug);
    assert_eq!(cfg.mailbox.msg_process_limit, 7);
    assert_eq!(cfg.dispatcher, pool());
    assert_eq!(cfg.scheduler.frequency_millis, 50);
}

#[test]
fn a_debug_that_is_no_boolean_keeps_debug_and_the_rest_is_read() {
    let mut cfg = Config::new(pool());
    cfg.amend("debug = 1\n[mailbox]\nmsg_process_limit = 7\n");
    assert!(cfg.debug);
    assert_eq!(cfg.mailbox.msg_process_limit, 7);
}

#[test]
fn a_missing_section_keeps_its_settings_and_the_rest_is_read() {
    let mut cfg = Config::new(pool());
    cfg.amend("debug = false\n[mailbox]\nmsg_process_limit = 7\n[scheduler]\nfrequency_ms = 20\n");
    assert!(!cfg.debug);
    assert_eq!(cfg.mailbox.msg_process_limit, 7);
    assert_eq!(cfg.dispatcher, pool());
    assert_eq!(cfg.scheduler.frequency_millis, 20);
}

#[test]
fn only_the_scheduler() {
    let mut cfg = Config::new(pool());
    cfg.amend("[scheduler]\nfrequency_ms = 9\n");
    assert_eq!(cfg.scheduler.frequency_millis, 9);
    assert_eq!(cfg.mailbox.msg_process_limit, 1000);
    assert!(cfg.debug);
}

#[test]
fn a_text_that_nests_too_deep_is_no_document() {
    let deep = format!("a = {}{}\ndebug = false\n", "[".repeat(300), "]".repeat(300));
    assert!(!is_shallow(&deep));
    let mut cfg = Config::new(pool());
    cfg.amend(&deep);
    assert_eq!(cfg, Config::new(pool()));
    let very_deep = format!("a = {}", "[".repeat(200_000));
    cfg.amend(&very_deep);
    assert_eq!(cfg, Config::new(pool()));
    let dotted = format!("{}a = 1\ndebug = false\n", "a.".repeat(300));
    assert!(!is_shallow(&dotted));
    cfg.amend(&dotted);
    assert_eq!(cfg, Config::new(pool()));
}

#[test]
fn nesting_is_counted_in_marks() {
    assert!(is_shallow(""));
    assert!(is_shallow("debug = false\n[mailbox]\nmsg_process_limit = 7\n"));
    assert!(is_shallow(&"[".repeat(256)));
    assert!(!is_shallow(&"[".repeat(257)));
    assert!(!is_shallow(&"{".repeat(257)));
    assert!(is_shallow(&format!("{}{}", "é".repeat(1000), ".".repeat(256))));
    let nested = format!("debug = false\na = {}1{}\n", "[".repeat(100), "]".repeat(100));
    let mut cfg = Config::new(pool());
    cfg.amend(&nested);
    assert!(!cfg.debug);
}

#[test]
fn a_malformed_section_keeps_its_settings_and_the_rest_is_read() {
    let mut cfg = Config::new(pool());
    cfg.amend(
        "debug = false\n[mailbox]\nmsg_process_limit = \"many\"\n\
         [dispatcher]\npool_size = 2\n[scheduler]\nfrequency_ms = 5\n",
    );
    assert!(!cfg.debug);
    assert_eq!(cfg.mailbox.msg_process_limit, 1000);
    assert_eq!(cfg.dispatcher.pool_size, 2);
    assert_eq!(cfg.dispatcher.stack_size, 0);
    assert_eq!(cfg.scheduler.frequency_millis, 5);
}

#[test]
fn a_section_that_is_no_table_keeps_its_settings() {
    let mut cfg = Config::new(pool());
    cfg.amend("debug = true\nmailbox = 3\ndispatcher = 4\nscheduler = 5\n");
    assert_eq!(cfg, Config::new(pool()));
}

#[test]
fn the_quota_is_cut_to_32_bits() {
    let mut m = MailboxConfig::default();
    m.set_limit(4294967301);
    assert_eq!(m.msg_process_limit, 5);
    m.set_limit(-1);
    assert_eq!(m.msg_process_limit, 4294967295);
    m.set_limit(12);
    assert_eq!(m.msg_process_limit, 12);
}

#[test]
fn the_quota_of_a_document_is_cut_to_32_bits() {
    let mut cfg = Config::new(pool());
    cfg.amend("debug = true\n[mailbox]\nmsg_process_limit = 4294967301\n");
    assert_eq!(cfg.mailbox.msg_process_limit, 5);
}

#[test]
fn mailbox_section_merge() {
    let doc: toml::Value = toml::from_str("msg_process_limit = 33\nother = 1\n").unwrap();
    let mut m = MailboxConfig::default();
    assert_eq!(m.merge(&doc), None);
    assert_eq!(m.msg_process_limit, 33);
    let empty: toml::Value = toml::from_str("").unwrap();
    assert_eq!(m.merge(&empty), None);
    assert_eq!(m.msg_process_limit, 33);
    assert_eq!(m.merge(&toml::Value::Integer(4)), None);
    assert_eq!(m.msg_process_limit, 33);
}

#[test]
fn dispatcher_section_merge_reads_each_key_on_its_own() {
    let mut d = pool();
    let only_stack: toml::Value = toml::from_str("stack_size = 9\n").unwrap();
    assert_eq!(d.merge(&only_stack), None);
    assert_eq!(d, ThreadPoolConfig { pool_size: 4, stack_size: 9 });
    let only_pool: toml::Value = toml::from_str("pool_size = 6\n").unwrap();
    assert_eq!(d.merge(&only_pool), None);
    assert_eq!(d, ThreadPoolConfig { pool_size: 6, stack_size: 9 });
    let wrong_pool: toml::Value = toml::from_str("pool_size = \"x\"\nstack_size = 3\n").unwrap();
    assert_eq!(d.merge(&wrong_pool), None);
    assert_eq!(d, ThreadPoolConfig { pool_size: 6, stack_size: 3 });
    let both: toml::Value = toml::from_str("pool_size = 1\nstack_size = 2\n").unwrap();
    assert_eq!(d.merge(&both), None);
    assert_eq!(d, ThreadPoolConfig { pool_size: 1, stack_size: 2 });
}

#[test]
fn scheduler_section_merge() {
    let mut s = BasicTimerConfig::default();
    let doc: toml::Value = toml::from_str("frequency_ms = 250\n").unwrap();
    assert_eq!(s.merge(&doc), None);
    assert_eq!(s.frequency_millis, 250);
    let wrong: toml::Value = toml::from_str("frequency_ms = true\n").unwrap();
    assert_eq!(s.merge(&wrong), None);
    assert_eq!(s.frequency_millis, 250);
}

#[test]
fn config_merge_returns_none() {
    let doc: toml::Value = toml::from_str("debug = false\n").unwrap();
    let mut cfg = Config::new(pool());
    assert_eq!(cfg.merge(&doc), None);
    assert!(!cfg.debug);
}

#[test]
fn the_deepest_shallow_documents_are_read() {
    let arrays = format!("debug = false\na = {}1{}\n", "[".repeat(256), "]".repeat(256));
    assert!(is_shallow(&arrays));
    let mut cfg = Config::new(pool());
    cfg.amend(&arrays);
    assert!(!cfg.debug);

    let tables =
        format!("debug = false\na = {}{{ b = 1 }}{}\n", "{ c = ".repeat(255), " }".repeat(255));
    assert!(is_shallow(&tables));
    let mut cfg = Config::new(pool());
    cfg.amend(&tables);
    assert!(!cfg.debug);

    let dotted = format!("debug = false\n[a{}]\nx = 1\n", ".b".repeat(255));
    assert!(is_shallow(&dotted));
    let mut cfg = Config::new(pool());
    cfg.amend(&dotted);
    assert!(!cfg.debug);

    let key = format!("debug = false\na{} = 1\n", ".b".repeat(256));
    assert!(is_shallow(&key));
    let mut cfg = Config::new(pool());
    cfg.amend(&key);
    assert!(!cfg.debug);
}
