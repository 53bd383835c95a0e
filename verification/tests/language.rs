use workshop_walker::language::detect;
use workshop_walker::model::DetectedLanguage;

const MIXED: &str = r"

Adds preserved meals that do not cause food poisoning, lavish and fine meals crafted from them, harmless recreational drugs, and canned preserved foods that can be used as raw ingredients.

Recreational drugs become available after researching Drug Production, while rations, prepared meals, and canned food can be crafted after researching Packaged Survival Meal.

These meals provide greater mood benefits when consumed by Vigils from Misstall's Vigil Race.
https://steamcommunity.com/sharedfiles/filedetails/?id=3473101740

Canned food is processed in a way that prevents spoilage, allowing it to be used as a substitute for raw ingredients in cooking or other recipes that require raw materials. It provides more nutrition than raw food and can be stockpiled in large quantities within a compact space.


Translated with DeepL.com (free version)

==================================================



食中毒を起こさない保存食と､その保存食を材料に作成するlavish､Fine mealと､健康に害を及ぼさない娯楽用のドラッグと､生食材として使用可能な保存食の缶詰を追加します

娯楽用ドラッグ類はドラッグ製造の研究を､レーションや配膳食､缶詰は非常用食品の研究で作成可能です。

Misstall's Vigil Raceのヴィジルたちはこの味気ない食事を好みます。
https://steamcommunity.com/sharedfiles/filedetails/?id=3473101740

缶詰は生の食材を腐食しない形に加工し､料理やその他生食材を原料とする制作物に使用できます。生の食材よりも栄養価が高く、狭いスペースに多数備蓄することが可能です。";

#[test]
fn language_test_lang_encode() {
    // ensures that language is always encoded into an int, catches a storage
    // performance limitation
    assert_eq!(DetectedLanguage::English.code(), 1);
    assert_eq!(format!("{}", DetectedLanguage::English.code()), "1");
}

#[test]
fn language_actor_test_lang_encode() {
    assert_eq!(DetectedLanguage::English.code(), 1);
    assert_eq!(DetectedLanguage::Unknown.code(), 0);
}

#[test]
fn language_test_mixed() {
    let r: Vec<DetectedLanguage> = detect(MIXED);
    assert_eq!(vec![DetectedLanguage::English, DetectedLanguage::Japanese], r);
}

#[test]
fn language_actor_test_mixed() {
    let r: Vec<DetectedLanguage> = detect(MIXED);
    assert_eq!(vec![DetectedLanguage::English, DetectedLanguage::Japanese], r);
}
