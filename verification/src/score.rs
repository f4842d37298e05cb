use vstd::prelude::*;

use crate::json::{find_member, json_document, member, parse_json, Json, Member};

verus! {

/// Name of the application's directory below the user's data directory.
pub const APP_DIR_NAME: &'static str = "snake";

/// Name of the file that holds the persisted state.
pub const SCORE_FILE_NAME: &'static str = "scores.json";

/// The persisted client state: the high score and the theme that was
/// selected last, if one was.
#[derive(Debug, Clone)]
pub struct ScoreFile {
    pub high_score: u32,
    pub theme_name: Option<String>,
}

pub ghost struct ScoreFileModel {
    pub high_score: u32,
    pub theme_name: Option<Seq<char>>,
}

impl View for ScoreFile {
    type V = ScoreFileModel;

    open spec fn view(&self) -> ScoreFileModel {
        ScoreFileModel {
            high_score: self.high_score,
            theme_name: match self.theme_name {
                Some(name) => Some(name@),
                None => None,
            },
        }
    }
}

/// The state of a first run: no score yet, and no theme preference.
pub open spec fn default_score_file() -> ScoreFileModel {
    ScoreFileModel { high_score: 0, theme_name: None }
}

impl Default for ScoreFile {
    fn default() -> (file: Self)
        ensures
            file@ == default_score_file(),
    {
        ScoreFile { high_score: 0, theme_name: None }
    }
}

/// What was found where the persisted state is kept.
#[derive(Debug, Clone)]
pub enum StoredScores {
    /// There is no file yet.
    Missing,
    /// There is a file, and it could not be read.
    Unreadable,
    /// The text of the file.
    Text(String),
}

/// Why the persisted state could not be loaded.
#[derive(Debug, Clone, Copy, PartialEq, Eq, Structural)]
pub enum ScoreError {
    /// The file is there and could not be read.
    Unreadable,
    /// The file's text is not a persisted state.
    Malformed,
}

/// The theme name that a JSON value under `theme_name` writes: no name for
/// `null`, the name for a string, and nothing for anything else.
pub open spec fn theme_name_of(json: Json) -> Option<Option<Seq<char>>> {
    match json {
        Json::Null => Some(None),
        Json::Text(name) => Some(Some(name@)),
        _ => None,
    }
}

/// The persisted state that the JSON document `json` writes, if it is one:
/// an object with an integer from 0 to 4294967295 under `high_score`, and
/// either no member `theme_name` or `null` or a string under it. Other
/// members are passed over.
pub open spec fn score_file_of(json: Json) -> Option<ScoreFileModel> {
    match json {
        Json::Object(members) => match member(members@, "high_score"@) {
            Some(Json::Number(Some(score))) => if score <= u32::MAX {
                let theme_name = match member(members@, "theme_name"@) {
                    Some(value) => theme_name_of(value),
                    None => Some(None),
                };
                match theme_name {
                    Some(name) => Some(ScoreFileModel { high_score: score as u32, theme_name: name }),
                    None => None,
                }
            } else {
                None
            },
            _ => None,
        },
        _ => None,
    }
}

/// The persisted state that the text `raw` writes, if it is one.
pub open spec fn score_file_of_text(raw: Seq<char>) -> Option<ScoreFileModel> {
    match json_document(raw) {
        Some(json) => score_file_of(json),
        None => None,
    }
}

/// What loading gives for what was found: the state of a first run where
/// there is no file, the state that the file's text writes, and an error
/// where the file could not be read or its text is no persisted state.
pub open spec fn loaded(stored: StoredScores) -> Result<ScoreFileModel, ScoreError> {
    match stored {
        StoredScores::Missing => Ok(default_score_file()),
        StoredScores::Unreadable => Err(ScoreError::Unreadable),
        StoredScores::Text(raw) => match score_file_of_text(raw@) {
            Some(file) => Ok(file),
            None => Err(ScoreError::Malformed),
        },
    }
}

/// The state that a save starts from: what loading gives, and the state of
/// a first run where loading fails.
pub open spec fn save_base(stored: StoredScores) -> ScoreFileModel {
    match loaded(stored) {
        Ok(file) => file,
        Err(_) => default_score_file(),
    }
}

/// Reads the persisted state out of a JSON document.
pub fn score_file_from_json(json: &Json) -> (file: Option<ScoreFile>)
    ensures
        match file {
            Some(f) => score_file_of(*json) == Some(f@),
            None => score_file_of(*json) is None,
        },
{
    match json {
        Json::Object(members) => {
            let high_score: u32 = match find_member(members, "high_score") {
                Some(Json::Number(Some(score))) => {
                    if *score <= u32::MAX as u64 {
                        *score as u32
                    } else {
                        return None;
                    }
                },
                _ => {
                    return None;
                },
            };
            let theme_name = match find_member(members, "theme_name") {
                Some(Json::Null) => None,
                Some(Json::Text(name)) => Some(name.clone()),
                Some(_) => {
                    return None;
                },
                None => None,
            };
            Some(ScoreFile { high_score, theme_name })
        },
        _ => None,
    }
}

/// Parses the text of the persisted state.
///
/// Returns nothing where the text is not JSON or not a persisted state.
pub fn parse_score_file(raw: &str) -> (file: Option<ScoreFile>)
    ensures
        match file {
            Some(f) => score_file_of_text(raw@) == Some(f@),
            None => score_file_of_text(raw@) is None,
        },
{
    match parse_json(raw) {
        Some(json) => score_file_from_json(&json),
        None => None,
    }
}

/// Whether `json` is the document that writes `file`: an object with the
/// high score under `high_score` and then, where there is a theme name,
/// the name under `theme_name`.
pub open spec fn is_score_json(json: Json, file: ScoreFileModel) -> bool {
    &&& json matches Json::Object(members)
    &&& members@.len() == if file.theme_name is Some {
        2nat
    } else {
        1nat
    }
    &&& members@[0].name@ == "high_score"@
    &&& members@[0].value == Json::Number(Some(file.high_score as u64))
    &&& file.theme_name is Some ==> members@[1].name@ == "theme_name"@ && (members@[1].value
        matches Json::Text(name) && name@ == file.theme_name->0)
}

/// The document that writes a persisted state reads back as that state.
pub proof fn lemma_score_json_round_trip(json: Json, file: ScoreFileModel)
    requires
        is_score_json(json, file),
    ensures
        score_file_of(json) == Some(file),
{
    reveal_strlit("high_score");
    reveal_strlit("theme_name");
    let members = json->Object_0@;
    assert("high_score"@[0] != "theme_name"@[0]);
    if file.theme_name is Some {
        assert(members.drop_first().len() == 1);
        assert(members.drop_first()[0] == members[1]);
        assert(members.drop_first().drop_first().len() == 0);
        reveal_with_fuel(member, 3);
        assert(member(members, "theme_name"@) == Some(members[1].value));
    } else {
        assert(members.drop_first().len() == 0);
        reveal_with_fuel(member, 2);
        assert(member(members, "theme_name"@) is None);
    }
}

/// Builds the JSON document that writes `file`. A state without a theme
/// name has no member `theme_name`.
pub fn score_file_json(file: &ScoreFile) -> (json: Json)
    ensures
        is_score_json(json, file@),
        score_file_of(json) == Some(file@),
{
    let mut members: Vec<Member> = Vec::new();
    members.push(
        Member { name: "high_score".to_owned(), value: Json::Number(Some(file.high_score as u64)) },
    );
    if let Some(name) = &file.theme_name {
        members.push(Member { name: "theme_name".to_owned(), value: Json::Text(name.clone()) });
    }
    let json = Json::Object(members);
    proof {
        lemma_score_json_round_trip(json, file@);
    }
    json
}

/// Loads the persisted state from what was found.
///
/// A missing file is a first run and gives the default state. A file that
/// could not be read, or whose text is no persisted state, is an error, so
/// that the caller can warn before it takes over the terminal.
pub fn load_score_file(stored: &StoredScores) -> (file: Result<ScoreFile, ScoreError>)
    ensures
        match file {
            Ok(f) => loaded(*stored) == Ok::<ScoreFileModel, ScoreError>(f@),
            Err(e) => loaded(*stored) == Err::<ScoreFileModel, ScoreError>(e),
        },
{
    match stored {
        StoredScores::Missing => Ok(ScoreFile::default()),
        StoredScores::Unreadable => Err(ScoreError::Unreadable),
        StoredScores::Text(raw) => match parse_score_file(raw.as_str()) {
            Some(file) => Ok(file),
            None => Err(ScoreError::Malformed),
        },
    }
}

/// Loads the high score: 0 where there is no file yet.
pub fn load_high_score(stored: &StoredScores) -> (score: Result<u32, ScoreError>)
    ensures
        match score {
            Ok(s) => loaded(*stored) is Ok && loaded(*stored)->Ok_0.high_score == s,
            Err(e) => loaded(*stored) == Err::<ScoreFileModel, ScoreError>(e),
        },
{
    match load_score_file(stored) {
        Ok(file) => Ok(file.high_score),
        Err(error) => Err(error),
    }
}

/// The state to write after a new high score: what was stored, with the
/// high score replaced and the theme name kept. Where nothing usable was
/// stored, the state starts from the default.
pub fn save_high_score(stored: &StoredScores, score: u32) -> (file: ScoreFile)
    ensures
        file@ == (ScoreFileModel { high_score: score, theme_name: save_base(*stored).theme_name }),
{
    let mut file = match load_score_file(stored) {
        Ok(found) => found,
        Err(_) => ScoreFile::default(),
    };
    file.high_score = score;
    file
}

/// Loads the saved theme name: none where none is set or there is no file
/// yet.
pub fn load_theme_name(stored: &StoredScores) -> (name: Result<Option<String>, ScoreError>)
    ensures
        match name {
            Ok(found) => loaded(*stored) is Ok && loaded(*stored)->Ok_0.theme_name == match found {
                Some(text) => Some(text@),
                None => None,
            },
            Err(e) => loaded(*stored) == Err::<ScoreFileModel, ScoreError>(e),
        },
{
    match load_score_file(stored) {
        Ok(file) => Ok(file.theme_name),
        Err(error) => Err(error),
    }
}

/// The state to write after a theme was selected: what was stored, with
/// the theme name replaced and the high score kept. Where nothing usable
/// was stored, the state starts from the default.
pub fn save_theme_name(stored: &StoredScores, name: &str) -> (file: ScoreFile)
    ensures
        file@ == (ScoreFileModel {
            high_score: save_base(*stored).high_score,
            theme_name: Some(name@),
        }),
{
    let mut file = match load_score_file(stored) {
        Ok(found) => found,
        Err(_) => ScoreFile::default(),
    };
    file.theme_name = Some(name.to_owned());
    file
}

/// The path of the persisted state, component by component: the user's
/// local data directory, or the current directory where there is none,
/// then the application's directory, then the file.
pub fn scores_path(data_local_dir: Option<String>) -> (path: Vec<String>)
    ensures
        path@.len() == 3,
        path@[0]@ == match data_local_dir {
            Some(dir) => dir@,
            None => "."@,
        },
        path@[1]@ == APP_DIR_NAME@,
        path@[2]@ == SCORE_FILE_NAME@,
{
    let base = match data_local_dir {
        Some(dir) => dir,
        None => ".".to_owned(),
    };
    let mut path: Vec<String> = Vec::new();
    path.push(base);
    path.push(APP_DIR_NAME.to_owned());
    path.push(SCORE_FILE_NAME.to_owned());
    path
}

} // verus!
