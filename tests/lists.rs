use tod_lists::fetch::{plan_walks, CommentFetch, WalkPlan};
use tod_lists::import::import_lines;
use tod_lists::run::{Action, Event, Outcome, Run};
use tod_lists::select::{Group, Operation};
use tod_lists::selector::{Flag, Project};
use tod_lists::task::{Comment, Priority, SortOrder, Task};
use tod_lists::view::{append_section, view_groups};

fn task(id: &str, priority: Priority, duration: Option<u32>, due: Option<u32>) -> Task {
    Task {
        id: id.to_string(),
        content: format!("task {id}"),
        priority,
        duration,
        due,
        project_id: "123".to_string(),
        parent_id: None,
        labels: Vec::new(),
    }
}

fn project() -> Flag {
    Flag::Project(Project { id: "123".to_string(), name: "myproject".to_string() })
}

fn today_filter() -> Flag {
    Flag::Filter("today".to_string())
}

fn one_group(label: &str, tasks: Vec<Task>) -> Vec<Group> {
    vec![Group { label: label.to_string(), tasks }]
}

/// Drives a run to its end, answering every walk with `answer`; returns the
/// outcome and the ids of the tasks shown, in order.
fn drive(run: &mut Run, answer: Event) -> (Outcome, Vec<String>) {
    let mut shown = Vec::new();
    loop {
        match run.action() {
            Action::Walk(i) => {
                shown.push(run.tasks[i].id.clone());
                run.step(answer);
            }
            Action::Join => run.step(Event::Joined),
            Action::Finish(o) => return (o, shown),
        }
    }
}

const TODAY: u32 = 20_000;

#[test]
fn test_import_creates_14_tasks() {
    let mut text = String::new();
    for i in 0..14 {
        text.push_str(&format!("Task number {i} today p1\n"));
        if i % 3 == 0 {
            text.push('\n');
        }
    }
    let lines = import_lines(&text);
    assert_eq!(lines.len(), 14);
    assert_eq!(lines[0], "Task number 0 today p1");
    assert_eq!(lines[13], "Task number 13 today p1");
}

#[test]
fn test_prioritize() {
    let tasks = vec![task("6Xqhv4cwxgjwG9w8", Priority::Unset, None, Some(TODAY))];
    let flag = today_filter();
    let mut run = Run::start(Operation::Prioritize, one_group("today", tasks), SortOrder::Value, TODAY);
    let (o, shown) = drive(&mut run, Event::Dispatched);
    assert_eq!(shown, vec!["6Xqhv4cwxgjwG9w8".to_string()]);
    assert_eq!(run.message(&flag, o), String::from("Successfully prioritized 'today'"));
}

#[test]
fn test_timebox() {
    let flag = project();
    for _ in 0..4 {
        let tasks = vec![
            task("6Xqhv4cwxgjwG9w8", Priority::Low, None, Some(TODAY)),
            task("999999", Priority::High, Some(15), Some(TODAY)),
        ];
        let mut run = Run::start(Operation::Timebox, one_group("myproject", tasks), SortOrder::Value, TODAY);
        let (o, shown) = drive(&mut run, Event::Dispatched);
        assert_eq!(shown, vec!["6Xqhv4cwxgjwG9w8".to_string()]);
        assert!(run.message(&flag, o).contains("Successfully timeboxed"));
    }
}

#[test]
fn test_prioritize_tasks_with_no_tasks() {
    let tasks = vec![task("6Xqhv4cwxgjwG9w8", Priority::High, None, Some(TODAY))];
    let flag = project();
    let mut run = Run::start(Operation::Prioritize, one_group("myproject", tasks), SortOrder::Value, TODAY);
    let (o, shown) = drive(&mut run, Event::Dispatched);
    assert!(shown.is_empty());
    assert_eq!(
        run.message(&flag, o),
        String::from("No tasks for myproject\nhttps://app.todoist.com/app/project/123")
    );
}

fn comments_for(id: &str) -> Vec<Comment> {
    vec![Comment {
        id: "c1".to_string(),
        task_id: id.to_string(),
        content: "a comment".to_string(),
        posted_at: "2024-01-01T00:00:00Z".to_string(),
    }]
}

#[test]
fn test_process_with_filter() {
    let flag = today_filter();
    let tasks = vec![task("6Xqhv4cwxgjwG9w8", Priority::High, None, Some(TODAY))];
    let mut run = Run::start(Operation::Process, one_group("today", tasks), SortOrder::Value, TODAY);
    let plans = plan_walks(vec![CommentFetch::Fetched(comments_for("6Xqhv4cwxgjwG9w8"))], flag.shows_project());
    match &plans[0] {
        WalkPlan::Present { comments, show_project, notice } => {
            assert_eq!(comments.len(), 1);
            assert!(*show_project);
            assert!(notice.is_none());
        }
        WalkPlan::Skip => panic!("the task must be shown"),
    }
    let (o, _) = drive(&mut run, Event::Dispatched);
    assert_eq!(run.message(&flag, o), "Successfully processed 'today'".to_string());
}

#[test]
fn test_process_with_project() {
    let flag = project();
    let tasks = vec![task("6Xqhv4cwxgjwG9w8", Priority::High, None, Some(TODAY))];
    let mut run = Run::start(Operation::Process, one_group("myproject", tasks), SortOrder::Value, TODAY);
    let (o, shown) = drive(&mut run, Event::Dispatched);
    assert_eq!(shown.len(), 1);
    assert_eq!(
        run.message(&flag, o),
        "Successfully processed myproject\nhttps://app.todoist.com/app/project/123".to_string()
    );
}

#[test]
fn test_label() {
    let flag = today_filter();
    let tasks = vec![
        task("6Xqhv4cwxgjwG9w8", Priority::High, None, Some(TODAY)),
        task("b", Priority::Unset, Some(30), None),
    ];
    let mut run = Run::start(Operation::Label, one_group("today", tasks), SortOrder::Value, TODAY);
    let (o, shown) = drive(&mut run, Event::Dispatched);
    assert_eq!(shown, vec!["6Xqhv4cwxgjwG9w8".to_string(), "b".to_string()]);
    assert_eq!(run.queued, 2);
    assert_eq!(run.message(&flag, o), String::from("Successfully labeled 'today'"));
}

#[test]
fn test_view() {
    let tasks = vec![task("6Xqhv4cwxgjwG9w8", Priority::High, None, Some(TODAY))];
    let groups = view_groups(one_group("today", tasks), SortOrder::Value).unwrap();
    let mut buffer = String::new();
    for g in &groups {
        let rendered: Vec<String> = g.tasks.iter().map(|t| format!("- {}\n", t.content)).collect();
        append_section(&mut buffer, &g.label, &rendered);
    }
    assert!(buffer.contains("Tasks for today"));
}

#[test]
fn test_view_with_project() {
    let mut t = task("6Xqhv4cwxgjwG9w8", Priority::High, None, Some(TODAY));
    t.content = "TEST".to_string();
    let groups = view_groups(one_group("myproject", vec![t]), SortOrder::Value).unwrap();
    let mut buffer = String::new();
    for g in &groups {
        let rendered: Vec<String> = g.tasks.iter().map(|t| format!("- {}\n", t.content)).collect();
        append_section(&mut buffer, &g.label, &rendered);
    }
    assert!(buffer.contains("Tasks for"));
    assert!(buffer.contains("- TEST\n"));
}

#[test]
fn view_text_is_exact() {
    let mut buffer = String::new();
    append_section(&mut buffer, &"a".to_string(), &vec!["x".to_string(), "y".to_string()]);
    append_section(&mut buffer, &"b".to_string(), &Vec::new());
    assert_eq!(buffer, "\nTasks for a\n\nx\ny\nTasks for b\n");
}

#[test]
fn view_of_no_tasks_is_none() {
    let groups = vec![
        Group { label: "a".to_string(), tasks: Vec::new() },
        Group { label: "b".to_string(), tasks: Vec::new() },
    ];
    assert!(view_groups(groups, SortOrder::Value).is_none());
}

#[test]
fn every_operation_reports_no_tasks_on_empty_selection() {
    let flag = today_filter();
    for op in [
        Operation::View,
        Operation::Prioritize,
        Operation::Timebox,
        Operation::Process,
        Operation::Label,
    ] {
        let mut run = Run::start(op, one_group("today", Vec::new()), SortOrder::Value, TODAY);
        assert_eq!(run.action(), Action::Finish(Outcome::NoTasks));
        run.step(Event::Dispatched);
        assert_eq!(run.queued, 0);
        assert_eq!(run.message(&flag, Outcome::NoTasks), "No tasks for 'today'");
    }
}

#[test]
fn sort_is_stable_permutation_and_idempotent() {
    let tasks = vec![
        task("a", Priority::Low, None, Some(5)),
        task("b", Priority::High, None, None),
        task("c", Priority::Low, None, Some(3)),
        task("d", Priority::High, None, Some(9)),
        task("e", Priority::Low, None, Some(3)),
        task("f", Priority::Unset, None, Some(1)),
    ];
    let ids = |v: &Vec<Task>| v.iter().map(|t| t.id.clone()).collect::<Vec<_>>();
    let by_value = tod_lists::task::sort(tasks.clone(), SortOrder::Value);
    assert_eq!(ids(&by_value), vec!["d", "b", "c", "e", "a", "f"]);
    let again = tod_lists::task::sort(by_value.clone(), SortOrder::Value);
    assert_eq!(ids(&again), ids(&by_value));
    let by_priority = tod_lists::task::sort(tasks.clone(), SortOrder::Priority);
    assert_eq!(ids(&by_priority), vec!["b", "d", "a", "c", "e", "f"]);
    let by_date = tod_lists::task::sort(tasks, SortOrder::Datetime);
    assert_eq!(ids(&by_date), vec!["f", "c", "e", "a", "d", "b"]);
}

#[test]
fn sort_of_empty_is_empty() {
    assert!(tod_lists::task::sort(Vec::new(), SortOrder::Datetime).is_empty());
}

#[test]
fn key_values_are_exact() {
    let t = task("a", Priority::Medium, None, Some(7));
    assert_eq!(tod_lists::task::key_of(&t, SortOrder::Priority), 1);
    assert_eq!(tod_lists::task::key_of(&t, SortOrder::Datetime), 7);
    assert_eq!(tod_lists::task::key_of(&t, SortOrder::Value), 0x2_0000_0000 + 7);
    let u = task("b", Priority::Unset, None, None);
    assert_eq!(tod_lists::task::key_of(&u, SortOrder::Value), 3 * 0x2_0000_0000 + 0x1_0000_0000);
}

#[test]
fn process_skips_parents_and_future_tasks() {
    let parent = task("p", Priority::High, None, Some(TODAY));
    let mut child = task("c", Priority::High, None, Some(TODAY));
    child.parent_id = Some("p".to_string());
    let later = task("l", Priority::High, None, Some(TODAY + 1));
    let undated = task("u", Priority::Low, None, None);
    let mut run = Run::start(
        Operation::Process,
        one_group("x", vec![parent, child, later, undated]),
        SortOrder::Value,
        TODAY,
    );
    let (_, shown) = drive(&mut run, Event::Dispatched);
    assert_eq!(shown, vec!["c".to_string(), "u".to_string()]);
}

#[test]
fn parent_of_a_future_task_is_processed() {
    let parent = task("p", Priority::High, None, Some(TODAY));
    let mut child = task("c", Priority::High, None, Some(TODAY + 3));
    child.parent_id = Some("p".to_string());
    let mut run = Run::start(Operation::Process, one_group("x", vec![parent, child]), SortOrder::Value, TODAY);
    let (_, shown) = drive(&mut run, Event::Dispatched);
    assert_eq!(shown, vec!["p".to_string()]);
}

#[test]
fn prioritize_walks_only_unset() {
    let tasks = vec![
        task("a", Priority::Unset, None, None),
        task("b", Priority::Low, None, None),
        task("c", Priority::Medium, None, None),
        task("d", Priority::Unset, None, Some(1)),
    ];
    let mut run = Run::start(Operation::Prioritize, one_group("x", tasks), SortOrder::Value, TODAY);
    let (_, shown) = drive(&mut run, Event::Dispatched);
    assert_eq!(shown, vec!["d".to_string(), "a".to_string()]);
}

#[test]
fn filter_groups_are_flattened_in_order() {
    let groups = vec![
        Group { label: "one".to_string(), tasks: vec![task("a", Priority::Unset, None, None)] },
        Group { label: "two".to_string(), tasks: vec![task("b", Priority::Unset, None, None)] },
    ];
    let mut run = Run::start(Operation::Label, groups, SortOrder::Priority, TODAY);
    let (o, shown) = drive(&mut run, Event::Dispatched);
    assert_eq!(o, Outcome::Success);
    assert_eq!(shown, vec!["a".to_string(), "b".to_string()]);
}

#[test]
fn abort_stops_the_walk() {
    let tasks = vec![
        task("a", Priority::High, None, None),
        task("b", Priority::Low, None, None),
        task("c", Priority::Unset, None, None),
    ];
    let mut run = Run::start(Operation::Timebox, one_group("x", tasks), SortOrder::Priority, TODAY);
    assert_eq!(run.remaining(), 3);
    assert_eq!(run.action(), Action::Walk(0));
    run.step(Event::Dispatched);
    assert_eq!(run.remaining(), 2);
    assert_eq!(run.action(), Action::Walk(1));
    run.step(Event::Aborted);
    assert_eq!(run.action(), Action::Finish(Outcome::Exited));
    run.step(Event::Dispatched);
    run.step(Event::Joined);
    assert_eq!(run.action(), Action::Finish(Outcome::Exited));
    assert_eq!(run.queued, 1);
    assert_eq!(run.message(&project(), Outcome::Exited), "Exited");
}

#[test]
fn skipped_task_queues_nothing() {
    let tasks = vec![task("a", Priority::High, None, None), task("b", Priority::Low, None, None)];
    let mut run = Run::start(Operation::Process, one_group("x", tasks), SortOrder::Priority, TODAY);
    run.step(Event::Skipped);
    run.step(Event::Dispatched);
    assert_eq!(run.action(), Action::Join);
    run.step(Event::Joined);
    assert_eq!(run.action(), Action::Finish(Outcome::Success));
    assert_eq!(run.queued, 1);
}

#[test]
fn comment_plans_keep_order_and_count() {
    let fetched = vec![
        CommentFetch::Failed { source: "Todoist".to_string(), message: "timeout".to_string() },
        CommentFetch::Lost,
        CommentFetch::Fetched(comments_for("c")),
    ];
    let plans = plan_walks(fetched, true);
    assert_eq!(plans.len(), 3);
    match &plans[0] {
        WalkPlan::Present { comments, show_project, notice } => {
            assert!(comments.is_empty());
            assert!(!*show_project);
            assert_eq!(notice.as_deref(), Some("Could not fetch comments from Todoist: timeout"));
        }
        WalkPlan::Skip => panic!("a failed fetch still shows the task"),
    }
    assert!(matches!(plans[1], WalkPlan::Skip));
    match &plans[2] {
        WalkPlan::Present { comments, show_project, notice } => {
            assert_eq!(comments[0].task_id, "c");
            assert!(*show_project);
            assert!(notice.is_none());
        }
        WalkPlan::Skip => panic!("a fetched task is shown"),
    }
}

#[test]
fn import_of_blank_text_is_empty() {
    assert!(import_lines("").is_empty());
    assert!(import_lines("\n\n\n").is_empty());
    assert_eq!(import_lines("a\n\nb"), vec!["a".to_string(), "b".to_string()]);
    assert_eq!(import_lines("ü x\n"), vec!["ü x".to_string()]);
}

#[test]
fn flag_descriptions() {
    assert_eq!(project().describe(), "myproject\nhttps://app.todoist.com/app/project/123");
    assert_eq!(today_filter().describe(), "'today'");
    assert!(!project().shows_project());
    assert!(today_filter().shows_project());
}
