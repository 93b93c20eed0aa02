//! Searching for byte patterns, and the catalogue of sites.

use stereocord::sig::{hex, parse_hex_byte, Pattern};
use stereocord::sites::{compile_patterns, find, group, groups, sites, Expect};

#[test]
fn wildcards_match_any_byte() {
    let p = Pattern::parse("AA ?? CC", 0);
    assert_eq!(p.find_all(&[0xAA, 0x00, 0xCC]), vec![0]);
    assert_eq!(p.find_all(&[0xAA, 0xFF, 0xCC]), vec![0]);
    assert!(p.find_all(&[0xAA, 0xFF, 0xCD]).is_empty());
}

#[test]
fn delta_points_inside_the_match() {
    let p = Pattern::parse("AA BB CC", 2);
    assert_eq!(p.find_all(&[0x00, 0xAA, 0xBB, 0xCC]), vec![3]);
}

#[test]
fn finds_every_occurrence() {
    let p = Pattern::parse("AA BB", 0);
    assert_eq!(p.find_all(&[0xAA, 0xBB, 0xAA, 0xBB]), vec![0, 2]);
}

#[test]
fn overlapping_matches_are_all_reported() {
    let p = Pattern::parse("AA AA", 0);
    assert_eq!(p.find_all(&[0xAA, 0xAA, 0xAA]), vec![0, 1]);
}

#[test]
fn leading_wildcards_do_not_stall_the_scan() {
    // The site catalogue anchors one pattern on trailing context only.
    let p = Pattern::parse("?? ?? CC DD", 0);
    assert_eq!(p.find_all(&[0x01, 0x02, 0xCC, 0xDD]), vec![0]);
}

#[test]
fn no_match_in_short_input() {
    let p = Pattern::parse("AA BB CC", 0);
    assert!(p.find_all(&[0xAA, 0xBB]).is_empty());
}

#[test]
fn every_match_is_found_once_and_in_order() {
    let p = Pattern::parse("01 ?? 03", 1);
    let hay = [0x01, 0x01, 0x03, 0x03, 0x01, 0x09, 0x03, 0x01];
    assert_eq!(p.find_all(&hay), vec![1, 2, 5]);
}

#[test]
fn a_pattern_of_wildcards_alone_is_not_searched_for() {
    let p = Pattern::parse("?? ??", 0);
    assert!(p.find_all(&[1, 2, 3]).is_empty());
}

#[test]
fn bytes_are_shown_in_upper_case_pairs() {
    assert_eq!(hex(&[0x00, 0xAB, 0x0F]), "00 AB 0F");
    assert_eq!(hex(&[]), "");
}

#[test]
fn hex_bytes_are_read_as_the_number_parser_reads_them() {
    assert_eq!(parse_hex_byte("ff"), Some(0xFF));
    assert_eq!(parse_hex_byte("0A"), Some(0x0A));
    assert_eq!(parse_hex_byte("+7"), Some(0x07));
    assert_eq!(parse_hex_byte("100"), None);
    assert_eq!(parse_hex_byte(""), None);
    assert_eq!(parse_hex_byte("g0"), None);
}

#[test]
fn every_site_belongs_to_a_declared_group() {
    for site in sites() {
        assert!(
            group(site.group).is_some(),
            "site {} is in group {:?}, which is not declared",
            site.name,
            site.group
        );
    }
}

#[test]
fn every_group_has_at_least_one_site() {
    for g in groups() {
        assert!(
            sites().iter().any(|s| s.group == g.name),
            "group {:?} has no sites",
            g.name
        );
    }
}

#[test]
fn site_names_are_unique() {
    let all = sites();
    for (i, a) in all.iter().enumerate() {
        assert!(
            !all[i + 1..].iter().any(|b| b.name == a.name),
            "duplicate site name {:?}",
            a.name
        );
    }
}

#[test]
fn group_names_are_unique() {
    let all = groups();
    assert_eq!(all.len(), 11);
    for (i, a) in all.iter().enumerate() {
        assert!(!all[i + 1..].iter().any(|b| b.name == a.name), "{}", a.name);
    }
}

#[test]
fn patterns_compile_and_deltas_are_in_range() {
    for site in sites() {
        for p in compile_patterns(site) {
            assert!(p.delta < p.toks.len(), "{}", site.name);
        }
    }
}

#[test]
fn anchors_refer_to_real_sites() {
    for site in sites() {
        if let Expect::NearestAfter { anchor, .. } = site.expect {
            assert!(find(anchor).is_some(), "{} anchors on missing {}", site.name, anchor);
        }
        if let Some(a) = &site.absent_ok {
            if let Some(other) = a.covered_by {
                assert!(find(other).is_some(), "{} covered_by missing {}", site.name, other);
            }
        }
    }
}

#[test]
fn an_unknown_site_is_not_found() {
    assert!(find("NoSuchSite").is_none());
    assert!(group("nosuchgroup").is_none());
    assert_eq!(sites().len(), 37);
}
