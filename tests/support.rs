use panorama::config::{ImapAuth, ImapConfig, TlsMethod};
use panorama::layout::{LayoutId, PageId, Rect, Table, WindowLayout};
use panorama::maildir::{Maildir, StoreOptions};
use panorama::strings::Store;
use panorama::types::RequestId;

#[test]
fn store_keeps_the_newest() {
    let mut s = Store::new(2);
    s.insert("a".to_owned());
    assert_eq!((s.len(), s.get(0).as_str()), (1, "a"));
    s.insert("a".to_owned());
    assert_eq!(s.len(), 1);
    s.insert("b".to_owned());
    s.insert("c".to_owned());
    assert_eq!(s.len(), 2);
    assert_eq!((s.get(0).as_str(), s.get(1).as_str()), ("b", "c"));
    assert!(s.contains(&"c".to_owned()));
    assert!(!s.contains(&"a".to_owned()));
    s.insert("b".to_owned());
    assert_eq!((s.get(0).as_str(), s.get(1).as_str()), ("b", "c"));
    s.insert("d".to_owned());
    assert_eq!((s.get(0).as_str(), s.get(1).as_str()), ("c", "d"));
    let mut empty = Store::new(0);
    empty.insert("x".to_owned());
    assert_eq!(empty.len(), 0);
}

#[test]
fn pages_and_windows() {
    let mut l = WindowLayout::default();
    let (w0, pg0) = l.new_page();
    let (w1, pg1) = l.new_page();
    assert_eq!((w0, pg0, w1, pg1), (LayoutId(0), PageId(1), LayoutId(2), PageId(3)));
    assert_eq!(l.list_pages(), &[pg0, pg1]);
    let area = Rect::new(0, 0, 80, 24);
    assert_eq!(l.visible_windows(area), vec![(w0, area)]);
    assert!(WindowLayout::default().visible_windows(area).is_empty());
}

#[test]
fn table_selects_its_first_row() {
    let mut t = Table::default();
    assert_eq!(t.selected_row, None);
    t.push_row(vec!["a".to_owned()]);
    t.push_row(vec!["b".to_owned()]);
    assert_eq!(t.selected_row, Some(0));
    assert_eq!(t.rows.len(), 2);
    assert_eq!(Rect::new(1, 2, 3, 4), Rect { x: 1, y: 2, w: 3, h: 4 });
}

#[test]
fn maildir_directories() {
    assert_eq!(Maildir::open("/var/mail").tmp_dir(), "/var/mail/tmp");
    assert_eq!(Maildir::open("/var/mail/").new_dir(), "/var/mail/new");
    assert_eq!(Maildir::open("").cur_dir(), "cur");
    assert_eq!(StoreOptions {}.create_unique_name(), "");
}

#[test]
fn request_id_bytes() {
    assert_eq!(RequestId("ptag7".to_owned()).as_bytes(), b"ptag7");
}

#[test]
fn config_decides_tls() {
    let c = ImapConfig {
        server: "mail.example.com".to_owned(),
        port: 993,
        tls: TlsMethod::On,
        auth: ImapAuth::Plain { username: "u".to_owned(), password: "p".to_owned() },
    };
    let cc = c.client_config();
    assert!(cc.tls);
    assert_eq!(cc.hostname, "mail.example.com");
    assert_eq!(cc.port, 993);
    assert!(!c.wants_starttls());
    let s = ImapConfig { tls: TlsMethod::Starttls, ..c.clone() };
    assert!(!s.client_config().tls);
    assert!(s.wants_starttls());
    assert_eq!(s.credentials().username, "u");
}
