use qingjian::scheme::{Scheme, ShuangpinScheme};

#[test]
fn parses_every_key_it_prints() {
    for scheme in Scheme::all() {
        assert_eq!(scheme.key().parse::<Scheme>(), Ok(scheme), "{}", scheme.key());
    }
}

#[test]
fn empty_and_unknown_spellings() {
    assert_eq!("".parse::<Scheme>(), Ok(Scheme::Pinyin));
    assert_eq!(" pinyin ".parse::<Scheme>(), Ok(Scheme::Pinyin));
    assert_eq!("wubi".parse::<Scheme>(), Ok(Scheme::Wubi86));
    assert!("flypy".parse::<Scheme>().is_err());
}

#[test]
fn knows_which_schemes_are_code_tables() {
    assert!(Scheme::Wubi86.is_code());
    assert!(!Scheme::Zhuyin.is_code());
    assert!(!Scheme::Shuangpin(ShuangpinScheme::Xiaohe).is_code());
    assert!(!Scheme::Pinyin.is_code());
}

#[test]
fn an_unknown_scheme_names_itself_in_the_error() {
    assert_eq!("flypy".parse::<Scheme>(), Err("unknown input scheme: flypy".to_owned()));
}

#[test]
fn keys_and_labels_of_each_scheme() {
    assert_eq!(Scheme::Shuangpin(ShuangpinScheme::Sogou).key(), "sogou");
    assert_eq!(Scheme::Shuangpin(ShuangpinScheme::Ziranma).label(), "自然码");
    assert_eq!(Scheme::Zhuyin.label(), "大千注音");
    assert_eq!(Scheme::Wubi86.label(), "五笔（86）");
    assert_eq!(Scheme::Pinyin.label(), "全拼");
    assert_eq!(Scheme::Shuangpin(ShuangpinScheme::Microsoft).shuangpin(), Some(ShuangpinScheme::Microsoft));
    assert_eq!(Scheme::Pinyin.shuangpin(), None);
    assert_eq!(Scheme::default(), Scheme::Pinyin);
}
