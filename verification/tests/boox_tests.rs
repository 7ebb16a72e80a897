use highlight_extract::display_markdown::AsMarkdown;
use highlight_extract::model::{BooxFile, Highlight, Metadata, Section, Timestamp};
use highlight_extract::parse_boox::parse_boox;
use highlight_extract::parse_boox_v1::parse_boox_v1;
use highlight_extract::parse_boox_v2::parse_boox_v2;

fn ts(year: u32, month: u32, day: u32, hour: u32, minute: u32) -> Timestamp {
    Timestamp { year, month, day, hour, minute }
}

fn v2_sample() -> String {
    let mut data = String::new();
    data.push_str("Reading Notes\u{a0}|\u{a0}<<Building a Second Brain -- A Proven Method>>Tiago Forte\n");
    data.push_str("2023-04-03 00:41\u{a0}\u{a0}|\u{a0}\u{a0}Page No.: 6\nPKM—or personal knowledge management\n-------------------\n");
    data.push_str("Chapter 3: How a Second Brain Works\n");
    data.push_str("2023-04-03 01:21\u{a0}\u{a0}|\u{a0}\u{a0}Page No.: 32\nWe bookmark articles to read later, but rarely find the time to revisit them again\n【Note】There's too many to \nactually read them all\n-------------------\n");
    data.push_str("2023-04-03 16:57\u{a0}\u{a0}|\u{a0}\u{a0}Page No.: 39\nIn other words, \nthe jobs that are most likely to stick around are those that involve promoting or defending a particular perspective\n【Note】Not sure about now with LLMs\n-------------------\n");
    data.push_str("2023-04-03 17:01\u{a0}\u{a0}|\u{a0}\u{a0}Page No.: 40\nMultimedia\n-------------------\n");
    data
}

fn v2_expected() -> BooxFile {
    BooxFile {
        metadata: Metadata {
            title: "Building a Second Brain -- A Proven Method".to_owned(),
            author: "Tiago Forte".to_owned(),
        },
        sections: vec![
            Section::HL(Highlight {
                timestamp: ts(2023, 4, 3, 0, 41),
                page: 6,
                highlight: "PKM—or personal knowledge management".to_owned(),
                note: None,
            }),
            Section::Chapter("Chapter 3: How a Second Brain Works".to_string()),
            Section::HL(Highlight {
                timestamp: ts(2023, 4, 3, 1, 21),
                page: 32,
                highlight: "We bookmark articles to read later, but rarely find the time to revisit them again".to_owned(),
                note: Some("There's too many to \nactually read them all".to_owned()),
            }),
            Section::HL(Highlight {
                timestamp: ts(2023, 4, 3, 16, 57),
                page: 39,
                highlight: "In other words, \nthe jobs that are most likely to stick around are those that involve promoting or defending a particular perspective".to_owned(),
                note: Some("Not sure about now with LLMs".to_owned()),
            }),
            Section::HL(Highlight {
                timestamp: ts(2023, 4, 3, 17, 01),
                page: 40,
                highlight: "Multimedia".to_owned(),
                note: None,
            }),
        ],
    }
}

fn v1_sample() -> String {
    let mut data = String::new();
    data.push_str("Reading Notes\u{a0}|\u{a0}<<One Up on Wall Street - Peter Lynch & John Rothchild (952)>>\nPeter Lynch; John Rothchild\n");
    data.push_str("1\nTime：2022-03-07 01:11\n【Original Text】tics to a degree neither side could have imagined in the doldrums of the early 1970s, when I first took the helm at Magellan. At that low point, demoralized investors had to remind themselves that bear markets don’t last forever, and those with patience held on to their stocks and mutual funds for the fifteen years it took the Dow and other averages to regain the prices reached in the mid-1960s. Today it’s worth reminding ourselves that bull markets don’t last forever and that patience is required in both directions.On  of this book I say the breakup of ATT\n【Annotations】some very good annotation\n【Page Number】13\n-------------------\n");
    data.push_str("2\nTime：2022-03-07 14:02\n【Original Text】valued at $10 billion may not be worth a dime. As expectations turn to reality, the winners will be more obvious than they are today. Investors who see this will have time to act on their “edge.”\n【Annotations】\n【Page Number】20\n-------------------\n");
    data.push_str("3\nTime：2022-03-07 14:02\n【Original Text】Microsoft went public in 1986 at 15 cents a share. Three years later you could buy a share for under $1, and from there it advanced eightyfold. (The stock has “split” several times along the way, so original shares never actually sold for 15 cents—for further explanation, see the footnote on .) If you took the Missouri “show me” approach and waited to buy Microsoft until it triumphed with Windows 95, you still made seven times your money. You didn’t have to be a programmer to notice Microsoft everywhere you looked. Except in the Apple orchard, all new computers\n【Annotations】\n【Page Number】20\n-------------------\n");
    data.push_str("4\nTime：2022-03-07 01:20\n【Original Text】Street Journal and Barron’s, and get a snapshot review of almost any publicly traded company. From there you can access “Zack’s” and get a summary of ratings from all the analysts who follow a particular stock.Again thanks to the Internet, the cost of buying and selling stocks has been drastically reduced for the small investor, the way it was reduced for institutional investors in 1975. On-line trading has pressured traditional brokerage houses to reduce commissions and transaction fees, continuing a trend that began with the birth of the discount broker two decades ago.You may be wondering what’s happened to my investing habits since I left Magellan. Instead of following thousands\n【Annotations】\n【Page Number】22\n-------------------\n");
    data
}

fn v1_expected() -> BooxFile {
    BooxFile {
        metadata: Metadata {
            title: "One Up on Wall Street - Peter Lynch & John Rothchild (952)".to_owned(),
            author: "Peter Lynch; John Rothchild".to_owned(),
        },
        sections: vec![
            Section::HL(Highlight {
                timestamp: ts(2022, 3, 7, 1, 11),
                page: 13,
                highlight: "tics to a degree neither side could have imagined in the doldrums of the early 1970s, when I first took the helm at Magellan. At that low point, demoralized investors had to remind themselves that bear markets don’t last forever, and those with patience held on to their stocks and mutual funds for the fifteen years it took the Dow and other averages to regain the prices reached in the mid-1960s. Today it’s worth reminding ourselves that bull markets don’t last forever and that patience is required in both directions.On  of this book I say the breakup of ATT".to_owned(),
                note: Some("some very good annotation".to_owned()),
            }),
            Section::HL(Highlight {
                timestamp: ts(2022, 3, 7, 14, 2),
                page: 20,
                highlight: "valued at $10 billion may not be worth a dime. As expectations turn to reality, the winners will be more obvious than they are today. Investors who see this will have time to act on their “edge.”".to_owned(),
                note: None,
            }),
            Section::HL(Highlight {
                timestamp: ts(2022, 3, 7, 14, 2),
                page: 20,
                highlight: "Microsoft went public in 1986 at 15 cents a share. Three years later you could buy a share for under $1, and from there it advanced eightyfold. (The stock has “split” several times along the way, so original shares never actually sold for 15 cents—for further explanation, see the footnote on .) If you took the Missouri “show me” approach and waited to buy Microsoft until it triumphed with Windows 95, you still made seven times your money. You didn’t have to be a programmer to notice Microsoft everywhere you looked. Except in the Apple orchard, all new computers".to_owned(),
                note: None,
            }),
            Section::HL(Highlight {
                timestamp: ts(2022, 3, 7, 1, 20),
                page: 22,
                highlight: "Street Journal and Barron’s, and get a snapshot review of almost any publicly traded company. From there you can access “Zack’s” and get a summary of ratings from all the analysts who follow a particular stock.Again thanks to the Internet, the cost of buying and selling stocks has been drastically reduced for the small investor, the way it was reduced for institutional investors in 1975. On-line trading has pressured traditional brokerage houses to reduce commissions and transaction fees, continuing a trend that began with the birth of the discount broker two decades ago.You may be wondering what’s happened to my investing habits since I left Magellan. Instead of following thousands".to_owned(),
                note: None,
            }),
        ],
    }
}

#[test]
fn boox_test() {
    let data = v2_sample();

    let res = parse_boox(&data);

    assert_eq!(res, Ok(("", v2_expected())));
}

#[test]
fn parse_boox_v2_boox_test() {
    let data = v2_sample();

    let res = parse_boox_v2(&data);

    assert_eq!(res, Ok(("", v2_expected())));
}

#[test]
fn parse_boox_v1_boox_test() {
    let data = v1_sample();

    let res = parse_boox_v1(&data);

    assert_eq!(res, Ok(("", v1_expected())));
}

#[test]
fn boox_test_v1() {
    let data = v1_sample();

    let boox = parse_boox(&data);
    let md = boox.map(|b| b.1.fmt_markdown());

    assert_eq!(md, Ok("# One Up on Wall Street - Peter Lynch & John Rothchild (952)

**Author:** Peter Lynch; John Rothchild

---

## Highlights

#### Highlight (Page 13, 2022-03-07 01:11:00)

> tics to a degree neither side could have imagined in the doldrums of the early 1970s, when I first took the helm at Magellan. At that low point, demoralized investors had to remind themselves that bear markets don’t last forever, and those with patience held on to their stocks and mutual funds for the fifteen years it took the Dow and other averages to regain the prices reached in the mid-1960s. Today it’s worth reminding ourselves that bull markets don’t last forever and that patience is required in both directions.On  of this book I say the breakup of ATT

some very good annotation

#### Highlight (Page 20, 2022-03-07 14:02:00)

> valued at $10 billion may not be worth a dime. As expectations turn to reality, the winners will be more obvious than they are today. Investors who see this will have time to act on their “edge.”

#### Highlight (Page 20, 2022-03-07 14:02:00)

> Microsoft went public in 1986 at 15 cents a share. Three years later you could buy a share for under $1, and from there it advanced eightyfold. (The stock has “split” several times along the way, so original shares never actually sold for 15 cents—for further explanation, see the footnote on .) If you took the Missouri “show me” approach and waited to buy Microsoft until it triumphed with Windows 95, you still made seven times your money. You didn’t have to be a programmer to notice Microsoft everywhere you looked. Except in the Apple orchard, all new computers

#### Highlight (Page 22, 2022-03-07 01:20:00)

> Street Journal and Barron’s, and get a snapshot review of almost any publicly traded company. From there you can access “Zack’s” and get a summary of ratings from all the analysts who follow a particular stock.Again thanks to the Internet, the cost of buying and selling stocks has been drastically reduced for the small investor, the way it was reduced for institutional investors in 1975. On-line trading has pressured traditional brokerage houses to reduce commissions and transaction fees, continuing a trend that began with the birth of the discount broker two decades ago.You may be wondering what’s happened to my investing habits since I left Magellan. Instead of following thousands

".to_owned()));
}

#[test]
fn boox_test_v2() {
    let mut data = String::new();
    data.push_str("Reading Notes\u{a0}|\u{a0}<<Чистая архитектура>>Роберт Сесил Мартин\n");
    data.push_str("2023-03-31 03:23\u{a0}\u{a0}|\u{a0}\u{a0}Page No.: 4\nПосвящается моей любимой супруге, моим четырем замечательным детям и их семьям\n-------------------\n");
    data.push_str("Предисловие\n");
    data.push_str("2023-03-31 03:24\u{a0}\u{a0}|\u{a0}\u{a0}Page No.: 4\nвключая пятерых внуков — радость моей жиз\n-------------------\n");
    data.push_str("2023-03-31 03:38\u{a0}\u{a0}|\u{a0}\u{a0}Page No.: 5\nОчевидная привлекательность архитектуры — это структура. А структура — это то, что доминирует над парадигмами и суждениями в мире разработки программного обеспечения — компонентами, классами, функциями, модулями, слоями\n-------------------\n");
    data.push_str("2023-03-31 03:38\u{a0}\u{a0}|\u{a0}\u{a0}Page No.: 5\nневероятные небоскребы-башни Дженга, достигающие облаков, археологические слои, залегающие в горной породе. Структура программного обеспечения не всегда интуитивно очевидна, как структура зданий.\nЗдания имеют оче\n-------------------\n");
    data.push_str("2023-03-31 03:39\u{a0}\u{a0}|\u{a0}\u{a0}Page No.: 5\nназначения и от наличия или отсутствия архитектурных украшений\n【Note】ga\n-------------------\n");
    data.push_str("Причины неприятностей\n");
    data.push_str("2023-03-31 09:47\u{a0}\u{a0}|\u{a0}\u{a0}Page No.: 23\nГлава\u{a0}1. Что такое дизайн и архитектура?\nЦель?\nВ чем состоит цель таких решений, цель хорошего дизайна программного обеспечения? Главная цель — не что иное, как мое\n-------------------\n");
    data.push_str("2023-03-31 09:47\u{a0}\u{a0}|\u{a0}\u{a0}Page No.: 23\nМерой качества дизайна может служить простая мера трудозатрат, необходимых для удовлетворения потребностей клиента. Если трудозатраты невелики и остаются небольшими в течение эксплуатации системы, система имеет хо\n-------------------\n");

    let boox = parse_boox(&data);
    let md = boox.map(|b| b.1.fmt_markdown());

    assert_eq!(md, Ok("# Чистая архитектура

**Author:** Роберт Сесил Мартин

---

## Highlights

#### Highlight (Page 4, 2023-03-31 03:23:00)

> Посвящается моей любимой супруге, моим четырем замечательным детям и их семьям

### Предисловие

#### Highlight (Page 4, 2023-03-31 03:24:00)

> включая пятерых внуков — радость моей жиз

#### Highlight (Page 5, 2023-03-31 03:38:00)

> Очевидная привлекательность архитектуры — это структура. А структура — это то, что доминирует над парадигмами и суждениями в мире разработки программного обеспечения — компонентами, классами, функциями, модулями, слоями

#### Highlight (Page 5, 2023-03-31 03:38:00)

> невероятные небоскребы-башни Дженга, достигающие облаков, археологические слои, залегающие в горной породе. Структура программного обеспечения не всегда интуитивно очевидна, как структура зданий.
> Здания имеют оче

#### Highlight (Page 5, 2023-03-31 03:39:00)

> назначения и от наличия или отсутствия архитектурных украшений

ga

### Причины неприятностей

#### Highlight (Page 23, 2023-03-31 09:47:00)

> Глава\u{a0}1. Что такое дизайн и архитектура?
> Цель?
> В чем состоит цель таких решений, цель хорошего дизайна программного обеспечения? Главная цель — не что иное, как мое

#### Highlight (Page 23, 2023-03-31 09:47:00)

> Мерой качества дизайна может служить простая мера трудозатрат, необходимых для удовлетворения потребностей клиента. Если трудозатраты невелики и остаются небольшими в течение эксплуатации системы, система имеет хо

".to_owned()));
}
