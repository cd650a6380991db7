use feed_itunes::itunes::{channel_policy, item_policy, merge_repeated, merge_single, ItunesTag, MergePolicy};

#[test]
fn channel_policy_table() {
    assert_eq!(channel_policy(ItunesTag::Image), Some(MergePolicy::SetIfAbsent));
    assert_eq!(channel_policy(ItunesTag::Category), Some(MergePolicy::Append));
    assert_eq!(channel_policy(ItunesTag::Explicit), Some(MergePolicy::SetIfAbsent));
    for tag in [ItunesTag::Title, ItunesTag::Duration, ItunesTag::Author, ItunesTag::Summary] {
        assert_eq!(channel_policy(tag), None);
    }
}

#[test]
fn item_policy_table() {
    assert_eq!(item_policy(ItunesTag::Title), Some(MergePolicy::Overwrite));
    assert_eq!(item_policy(ItunesTag::Image), Some(MergePolicy::Append));
    assert_eq!(item_policy(ItunesTag::Duration), Some(MergePolicy::SetIfAbsent));
    assert_eq!(item_policy(ItunesTag::Author), Some(MergePolicy::Append));
    assert_eq!(item_policy(ItunesTag::Summary), Some(MergePolicy::Overwrite));
    for tag in [ItunesTag::Category, ItunesTag::Explicit] {
        assert_eq!(item_policy(tag), None);
    }
}

#[test]
fn set_if_absent_keeps_first() {
    let mut field: Option<u32> = None;
    merge_single(Some(MergePolicy::SetIfAbsent), &mut field, Some(1));
    merge_single(Some(MergePolicy::SetIfAbsent), &mut field, Some(2));
    merge_single(Some(MergePolicy::SetIfAbsent), &mut field, None);
    assert_eq!(field, Some(1));
}

#[test]
fn overwrite_keeps_last() {
    let mut field: Option<u32> = None;
    merge_single(Some(MergePolicy::Overwrite), &mut field, Some(1));
    merge_single(Some(MergePolicy::Overwrite), &mut field, Some(2));
    assert_eq!(field, Some(2));
    merge_single(Some(MergePolicy::Overwrite), &mut field, None);
    assert_eq!(field, None);
}

#[test]
fn append_keeps_order_and_skips_absent() {
    let mut field: Vec<u32> = vec![7];
    merge_repeated(Some(MergePolicy::Append), &mut field, Some(1));
    merge_repeated(Some(MergePolicy::Append), &mut field, None);
    merge_repeated(Some(MergePolicy::Append), &mut field, Some(1));
    assert_eq!(field, vec![7, 1, 1]);
}
