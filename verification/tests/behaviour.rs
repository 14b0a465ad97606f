use dispocheck::{is_disposable_domain, is_disposable_email, is_empty, iter, len, Blocklist};

#[test]
fn added_domain_is_disposable_whatever_came_before() {
    let mut list = Blocklist::from_embedded();
    list.remove_domain("fresh.test");
    list.add_domain("fresh.test");
    assert!(list.is_disposable_domain("fresh.test"));
    assert!(list.is_disposable_email("someone@fresh.test"));
}

#[test]
fn removed_parent_domain_unblocks_its_subdomains() {
    let mut list = Blocklist::from_embedded();
    assert!(list.is_disposable_domain("sub.mailinator.com"));
    list.remove_domain("mailinator.com");
    assert!(!list.is_disposable_domain("mailinator.com"));
    assert!(!list.is_disposable_domain("sub.mailinator.com"));
    assert!(list.is_disposable_domain("yopmail.com"));
}

#[test]
fn removed_subdomain_still_matches_through_its_parent() {
    let mut list = Blocklist::from_embedded();
    list.remove_domain("sub.mailinator.com");
    assert!(list.is_disposable_domain("sub.mailinator.com"));
}

#[test]
fn updates_leave_other_domains_alone() {
    let mut list = Blocklist::from_embedded();
    list.add_domain("one.test");
    list.remove_domain("yopmail.com");
    assert!(list.is_disposable_domain("mailinator.com"));
    assert!(list.is_disposable_domain("one.test"));
    assert!(!list.is_disposable_domain("two.test"));
}

#[test]
fn adding_twice_counts_once() {
    let mut list = Blocklist::from_domains(&[]);
    list.add_domain("twice.test");
    list.add_domain("TWICE.test.");
    assert_eq!(list.len(), 1);
    list.remove_domain("twice.test");
    list.remove_domain("twice.test");
    assert_eq!(list.len(), 0);
    assert!(list.is_empty());
}

#[test]
fn embedded_blocklist_counts_like_the_free_functions() {
    let list = Blocklist::from_embedded();
    assert_eq!(list.len(), len());
    let mut added = Blocklist::from_embedded();
    added.add_domain("brand-new.test");
    assert_eq!(added.len(), len() + 1);
}

#[test]
fn adding_a_present_embedded_domain_is_a_no_op() {
    let mut list = Blocklist::from_embedded();
    list.add_domain("Mailinator.com");
    assert_eq!(list.len(), len());
    list.remove_domain("mailinator.com");
    assert_eq!(list.len(), len() - 1);
    list.add_domain("mailinator.com");
    assert!(list.is_disposable_domain("mailinator.com"));
    assert_eq!(list.len(), len());
    list.remove_domain("mailinator.com");
    assert_eq!(list.len(), len() - 1);
    assert!(!list.is_disposable_domain("mailinator.com"));
}

#[test]
fn embedded_blocklist_agrees_with_free_functions() {
    let list = Blocklist::from_embedded();
    for domain in [
        "mailinator.com",
        "a.b.yopmail.com",
        "GUERRILLAMAIL.COM.",
        "gmail.com",
        "com",
        "",
        "reallymailinator.com",
    ] {
        assert_eq!(list.is_disposable_domain(domain), is_disposable_domain(domain));
    }
    for email in ["x@mailinator.com", "x@gmail.com", "nope", "x@"] {
        assert_eq!(list.is_disposable_email(email), is_disposable_email(email));
    }
}

#[test]
fn default_blocklist_is_the_embedded_one() {
    let list = Blocklist::default();
    assert!(list.is_disposable_domain("mailinator.com"));
    assert_eq!(list.len(), len());
}

#[test]
fn replaced_list_blocks_exactly_its_domains() {
    let list = Blocklist::from_domains(&["Only.Test", "other.test."]);
    assert!(list.is_disposable_domain("only.test"));
    assert!(list.is_disposable_domain("deep.sub.only.test"));
    assert!(list.is_disposable_domain("other.test"));
    assert!(!list.is_disposable_domain("yopmail.com"));
    assert!(!list.is_disposable_domain("test"));
}

#[test]
fn replaced_list_counts_distinct_domains() {
    let list = Blocklist::from_domains(&["a.test", "b.test", "A.TEST"]);
    assert_eq!(list.len(), 2);
}

#[test]
fn replaced_list_with_an_embedded_domain_counts_it_once() {
    let list = Blocklist::from_domains(&["mailinator.com"]);
    assert_eq!(list.len(), 1);
    assert!(list.is_disposable_domain("mailinator.com"));
    assert!(!list.is_disposable_domain("yopmail.com"));
}

#[test]
fn replaced_list_mixing_listed_and_new_domains() {
    let mut list = Blocklist::from_domains(&["yopmail.com", "new.test", "YOPMAIL.com."]);
    assert_eq!(list.len(), 2);
    list.add_domain("mailinator.com");
    assert_eq!(list.len(), 3);
    list.remove_domain("yopmail.com");
    assert_eq!(list.len(), 2);
    assert!(!list.is_disposable_domain("yopmail.com"));
    assert!(list.is_disposable_domain("new.test"));
}

#[test]
fn every_embedded_domain_is_detected_and_listed_once() {
    let mut seen: Vec<&str> = Vec::new();
    for domain in iter() {
        assert!(is_disposable_domain(domain));
        seen.push(domain);
    }
    let total = seen.len();
    seen.sort();
    seen.dedup();
    assert_eq!(seen.len(), total);
    assert_eq!(total, len());
}

#[test]
fn single_label_domains_never_match() {
    let mut list = Blocklist::from_domains(&[]);
    list.add_domain("localhost");
    assert!(!list.is_disposable_domain("localhost"));
    assert!(!is_disposable_domain("com"));
    assert!(!is_disposable_domain("mailinator"));
}

#[test]
fn only_whole_labels_match() {
    let mut list = Blocklist::from_domains(&[]);
    list.add_domain("example.test");
    assert!(!list.is_disposable_domain("myexample.test"));
    assert!(list.is_disposable_domain("my.example.test"));
}

#[test]
fn ascii_case_is_ignored() {
    assert!(is_disposable_domain("MaIlInAtOr.CoM"));
    assert!(is_disposable_email("SOMEONE@YOPMAIL.COM"));
}

#[test]
fn a_trailing_dot_and_surrounding_white_space_are_ignored() {
    assert!(is_disposable_domain("mailinator.com."));
    assert!(!is_disposable_domain("mailinator.com.."));
    assert!(is_disposable_domain("  mailinator.com\t"));
    assert!(is_disposable_domain("\u{3000}mailinator.com\u{a0}"));
    assert!(!is_disposable_domain("mailinator.com ."));
}

#[test]
fn only_the_last_at_sign_separates_the_domain() {
    assert!(is_disposable_email("@mailinator.com"));
    assert!(is_disposable_email("a@b@mailinator.com"));
    assert!(!is_disposable_email("x@mailinator.com@gmail.com"));
    assert!(!is_disposable_email("x@ "));
}

#[test]
fn embedded_list_lists_lowercase_dotted_domains() {
    assert!(!is_empty());
    let mut count = 0;
    let mut seen_mailinator = false;
    for domain in iter() {
        assert!(domain.contains('.'));
        assert_eq!(domain, domain.to_lowercase());
        if domain == "mailinator.com" {
            seen_mailinator = true;
        }
        count += 1;
    }
    assert!(seen_mailinator);
    assert_eq!(count, len());
}

#[test]
fn clone_is_independent() {
    let mut list = Blocklist::from_embedded();
    list.add_domain("kept.test");
    let copy = list.clone();
    list.remove_domain("kept.test");
    assert!(copy.is_disposable_domain("kept.test"));
    assert!(!list.is_disposable_domain("kept.test"));
}

#[test]
fn embedded_list_is_plausibly_large() {
    assert!(!is_empty());
    assert!(len() >= 1000);
}

#[test]
fn subdomains_of_typed_names_are_flagged() {
    assert!(is_disposable_domain("MailInator.com. "));
    assert!(is_disposable_domain("  x.MailInator.com. "));
    assert!(is_disposable_domain(".mailinator.com"));
    let mut list = Blocklist::from_domains(&[]);
    list.add_domain("Typed.Test");
    assert!(list.is_disposable_domain("typed.test\t"));
    assert!(list.is_disposable_domain(" Deep.TYPED.test."));
}

#[test]
fn lookups_follow_additions_and_removals() {
    let mut list = Blocklist::from_domains(&["kept.test"]);
    assert!(!list.is_disposable_domain("a.added.test"));
    list.add_domain("added.test");
    assert!(list.is_disposable_domain("a.added.test"));
    assert!(list.is_disposable_domain("kept.test"));
    list.remove_domain("added.test");
    assert!(!list.is_disposable_domain("a.added.test"));
    list.remove_domain("a.kept.test");
    assert!(list.is_disposable_domain("a.kept.test"));
}
